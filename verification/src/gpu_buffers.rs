use vstd::prelude::*;
use crate::gpu_structs::{LeafObjectStorage, SyntaxNode, SyntaxNodeStorage};
use crate::object_tree::FlatRenderTree;

verus! {

/// The four bytes of `w` in memory, little-endian or big-endian.
pub open spec fn word_bytes(w: u32, little_endian: bool) -> Seq<u8> {
    let b0 = (w % 0x100) as u8;
    let b1 = ((w / 0x100) % 0x100) as u8;
    let b2 = ((w / 0x1_0000) % 0x100) as u8;
    let b3 = ((w / 0x100_0000) % 0x100) as u8;
    if little_endian {
        seq![b0, b1, b2, b3]
    } else {
        seq![b3, b2, b1, b0]
    }
}

/// The bytes of a run of words laid out in memory one after the other.
pub open spec fn words_bytes(words: Seq<u32>, little_endian: bool) -> Seq<u8>
    decreases words.len(),
{
    if words.len() == 0 {
        seq![]
    } else {
        words_bytes(words.drop_last(), little_endian) + word_bytes(words.last(), little_endian)
    }
}

/// The bytes of a run of words take four bytes a word.
pub proof fn lemma_words_bytes_len(words: Seq<u32>, little_endian: bool)
    ensures
        words_bytes(words, little_endian).len() == 4 * words.len(),
    decreases words.len(),
{
    if words.len() > 0 {
        lemma_words_bytes_len(words.drop_last(), little_endian);
    }
}

/// Reinterprets 32-bit words as the bytes that hold them.
///
/// Calls `bytemuck::cast_slice::<u32, u8>`, which views the words' memory
/// as bytes (a `u8` needs no alignment and any length divides by its size,
/// so the cast never fails), and copies the view. The contract claims that
/// the bytes are the words' bytes in order, each word in one byte order,
/// little-endian or big-endian as the machine stores words; it does not say
/// which.
#[verifier::external_body]
fn cast_words_to_bytes(words: &[u32]) -> (bytes: Vec<u8>)
    ensures
        exists|little_endian: bool| bytes@ == words_bytes(words@, little_endian),
{
    bytemuck::cast_slice::<u32, u8>(words).to_vec()
}

/// The words of a syntax node as the shader reads them: its fields in
/// declaration order, signed ones in two's complement.
pub open spec fn syntax_node_words(n: SyntaxNode) -> Seq<u32> {
    seq![
        n.parent as u32,
        n.left as u32,
        n.left_neg,
        n.right as u32,
        n.right_neg as u32,
        n.right_gameobj,
        n.min,
        n._pad[0],
    ]
}

/// The words of a run of syntax nodes, node after node.
pub open spec fn syntax_nodes_words(nodes: Seq<SyntaxNode>) -> Seq<u32>
    decreases nodes.len(),
{
    if nodes.len() == 0 {
        seq![]
    } else {
        syntax_nodes_words(nodes.drop_last()) + syntax_node_words(nodes.last())
    }
}

/// A run of syntax nodes takes eight words a node.
pub proof fn lemma_syntax_nodes_words_len(nodes: Seq<SyntaxNode>)
    ensures
        syntax_nodes_words(nodes).len() == 8 * nodes.len(),
    decreases nodes.len(),
{
    if nodes.len() > 0 {
        lemma_syntax_nodes_words_len(nodes.drop_last());
    }
}

/// The words of the syntax tree buffer's header.
pub open spec fn syntax_node_storage_words(s: SyntaxNodeStorage) -> Seq<u32> {
    seq![s.length as u32, s.num_root as u32, s._pad[0], s._pad[1]]
}

/// The words of the leaf buffer's header.
pub open spec fn leaf_object_storage_words(s: LeafObjectStorage) -> Seq<u32> {
    seq![s.length, s._pad[0], s._pad[1], s._pad[2]]
}

/// The header of the syntax tree buffer for `tree`.
pub open spec fn spec_node_storage<L>(tree: FlatRenderTree<L>) -> SyntaxNodeStorage {
    SyntaxNodeStorage {
        length: tree.nodes@.len() as i32,
        num_root: tree.first_layer_length as i32,
        _pad: [0u32, 0u32],
    }
}

/// The header of the leaf buffer for `tree`.
pub open spec fn spec_leaf_storage<L>(tree: FlatRenderTree<L>) -> LeafObjectStorage {
    LeafObjectStorage { length: tree.leafs@.len() as u32, _pad: [0u32, 0u32, 0u32] }
}

/// The header of the syntax tree buffer: how many syntax nodes there are and
/// how many game objects they belong to.
pub fn node_storage<L>(tree: &FlatRenderTree<L>) -> (s: SyntaxNodeStorage)
    ensures
        s == spec_node_storage(*tree),
        s.length == tree.nodes@.len() as i32,
        s.num_root == tree.first_layer_length as i32,
        s._pad[0] == 0 && s._pad[1] == 0,
{
    SyntaxNodeStorage {
        length: tree.nodes.len() as i32,
        num_root: tree.first_layer_length as i32,
        _pad: [0, 0],
    }
}

/// The header of the leaf buffer: how many leaf objects there are.
pub fn leaf_storage<L>(tree: &FlatRenderTree<L>) -> (s: LeafObjectStorage)
    ensures
        s == spec_leaf_storage(*tree),
        s.length == tree.leafs@.len() as u32,
        s._pad[0] == 0 && s._pad[1] == 0 && s._pad[2] == 0,
{
    LeafObjectStorage { length: tree.leafs.len() as u32, _pad: [0, 0, 0] }
}

/// The words of the syntax tree buffer: the header, then every node.
pub fn syntax_tree_words<L>(tree: &FlatRenderTree<L>) -> (words: Vec<u32>)
    ensures
        words@ == syntax_node_storage_words(spec_node_storage(*tree)) + syntax_nodes_words(tree.nodes@),
        words@.len() == 4 + 8 * tree.nodes@.len(),
        words@[0] == tree.nodes@.len() as i32 as u32,
        words@[1] == tree.first_layer_length as i32 as u32,
        words@[2] == 0 && words@[3] == 0,
        forall|j: int|
            0 <= j < tree.nodes@.len() ==> {
                &&& words@[4 + 8 * j] == (#[trigger] tree.nodes@[j]).parent as u32
                &&& words@[4 + 8 * j + 1] == tree.nodes@[j].left as u32
                &&& words@[4 + 8 * j + 2] == tree.nodes@[j].left_neg
                &&& words@[4 + 8 * j + 3] == tree.nodes@[j].right as u32
                &&& words@[4 + 8 * j + 4] == tree.nodes@[j].right_neg as u32
                &&& words@[4 + 8 * j + 5] == tree.nodes@[j].right_gameobj
                &&& words@[4 + 8 * j + 6] == tree.nodes@[j].min
                &&& words@[4 + 8 * j + 7] == tree.nodes@[j]._pad[0]
            },
{
    let header = node_storage(tree);
    let mut words: Vec<u32> = Vec::new();
    words.push(header.length as u32);
    words.push(header.num_root as u32);
    words.push(header._pad[0]);
    words.push(header._pad[1]);
    let ghost head = words@;
    let mut i: usize = 0;
    while i < tree.nodes.len()
        invariant
            i <= tree.nodes@.len(),
            head == syntax_node_storage_words(spec_node_storage(*tree)),
            words@ == head + syntax_nodes_words(tree.nodes@.take(i as int)),
        decreases tree.nodes@.len() - i,
    {
        let n = tree.nodes[i];
        words.push(n.parent as u32);
        words.push(n.left as u32);
        words.push(n.left_neg);
        words.push(n.right as u32);
        words.push(n.right_neg as u32);
        words.push(n.right_gameobj);
        words.push(n.min);
        words.push(n._pad[0]);
        assert(tree.nodes@.take(i + 1).drop_last() =~= tree.nodes@.take(i as int));
        assert(words@ =~= head + syntax_nodes_words(tree.nodes@.take(i + 1)));
        i = i + 1;
    }
    assert(tree.nodes@.take(i as int) =~= tree.nodes@);
    proof {
        lemma_syntax_tree_words_layout(*tree);
    }
    words
}

/// The bytes written to the syntax tree buffer: the header, then every
/// node, as the machine stores the words.
pub fn syntax_tree_bytes<L>(tree: &FlatRenderTree<L>) -> (bytes: Vec<u8>)
    ensures
        exists|little_endian: bool|
            bytes@ == words_bytes(
                syntax_node_storage_words(spec_node_storage(*tree)) + syntax_nodes_words(tree.nodes@),
                little_endian,
            ),
        exists|little_endian: bool|
            {
                &&& bytes@.len() == 16 + 32 * tree.nodes@.len()
                &&& word_at(bytes@, 0, little_endian) == tree.nodes@.len() as i32 as u32
                &&& word_at(bytes@, 1, little_endian) == tree.first_layer_length as i32 as u32
                &&& word_at(bytes@, 2, little_endian) == 0
                &&& word_at(bytes@, 3, little_endian) == 0
                &&& forall|j: int|
                    0 <= j < tree.nodes@.len() ==> {
                        &&& word_at(bytes@, 4 + 8 * j, little_endian) == (#[trigger] tree.nodes@[j]).parent as u32
                        &&& word_at(bytes@, 4 + 8 * j + 1, little_endian) == tree.nodes@[j].left as u32
                        &&& word_at(bytes@, 4 + 8 * j + 2, little_endian) == tree.nodes@[j].left_neg
                        &&& word_at(bytes@, 4 + 8 * j + 3, little_endian) == tree.nodes@[j].right as u32
                        &&& word_at(bytes@, 4 + 8 * j + 4, little_endian) == tree.nodes@[j].right_neg as u32
                        &&& word_at(bytes@, 4 + 8 * j + 5, little_endian) == tree.nodes@[j].right_gameobj
                        &&& word_at(bytes@, 4 + 8 * j + 6, little_endian) == tree.nodes@[j].min
                        &&& word_at(bytes@, 4 + 8 * j + 7, little_endian) == tree.nodes@[j]._pad[0]
                    }
            },
{
    let words = syntax_tree_words(tree);
    let bytes = cast_words_to_bytes(words.as_slice());
    proof {
        let le = choose|little_endian: bool|
            bytes@ == words_bytes(
                syntax_node_storage_words(spec_node_storage(*tree)) + syntax_nodes_words(tree.nodes@),
                little_endian,
            );
        lemma_syntax_tree_buffer_read_back(*tree, le);
    }
    bytes
}

/// The bytes of the leaf buffer's header, which the leaf objects follow.
pub fn leaf_storage_bytes<L>(tree: &FlatRenderTree<L>) -> (bytes: Vec<u8>)
    ensures
        exists|little_endian: bool|
            bytes@ == words_bytes(leaf_object_storage_words(spec_leaf_storage(*tree)), little_endian),
        exists|little_endian: bool|
            {
                &&& bytes@.len() == 16
                &&& word_at(bytes@, 0, little_endian) == tree.leafs@.len() as u32
                &&& word_at(bytes@, 1, little_endian) == 0
                &&& word_at(bytes@, 2, little_endian) == 0
                &&& word_at(bytes@, 3, little_endian) == 0
            },
{
    let header = leaf_storage(tree);
    let mut words: Vec<u32> = Vec::new();
    words.push(header.length);
    words.push(header._pad[0]);
    words.push(header._pad[1]);
    words.push(header._pad[2]);
    assert(words@ =~= leaf_object_storage_words(spec_leaf_storage(*tree)));
    let bytes = cast_words_to_bytes(words.as_slice());
    proof {
        let le = choose|little_endian: bool|
            bytes@ == words_bytes(leaf_object_storage_words(spec_leaf_storage(*tree)), little_endian);
        lemma_leaf_header_read_back(*tree, le);
    }
    bytes
}

/// The syntax tree buffer is a 16-byte header followed by 32 bytes for
/// each syntax node, in either byte order.
pub proof fn lemma_syntax_tree_buffer_len<L>(tree: FlatRenderTree<L>, little_endian: bool)
    ensures
        words_bytes(
            syntax_node_storage_words(spec_node_storage(tree)) + syntax_nodes_words(tree.nodes@),
            little_endian,
        ).len() == 16 + 32 * tree.nodes@.len(),
        words_bytes(leaf_object_storage_words(spec_leaf_storage(tree)), little_endian).len() == 16,
{
    lemma_syntax_nodes_words_len(tree.nodes@);
    lemma_words_bytes_len(
        syntax_node_storage_words(spec_node_storage(tree)) + syntax_nodes_words(tree.nodes@),
        little_endian,
    );
    lemma_words_bytes_len(leaf_object_storage_words(spec_leaf_storage(tree)), little_endian);
}

/// The word that the four bytes at `4 * i` hold, read in the given byte
/// order.
pub open spec fn word_at(bytes: Seq<u8>, i: int, little_endian: bool) -> int {
    let b = bytes.subrange(4 * i, 4 * i + 4);
    if little_endian {
        b[0] + 0x100 * b[1] + 0x1_0000 * b[2] + 0x100_0000 * b[3]
    } else {
        b[3] + 0x100 * b[2] + 0x1_0000 * b[1] + 0x100_0000 * b[0]
    }
}

proof fn lemma_word_bytes_read_back(w: u32, little_endian: bool)
    ensures
        word_at(word_bytes(w, little_endian), 0, little_endian) == w,
{
    assert(w == w % 0x100 + 0x100 * ((w / 0x100) % 0x100) + 0x1_0000 * ((w / 0x1_0000) % 0x100)
        + 0x100_0000 * ((w / 0x100_0000) % 0x100)) by (bit_vector);
    assert(word_bytes(w, little_endian).subrange(0, 4) =~= word_bytes(w, little_endian));
}

proof fn lemma_words_bytes_index(words: Seq<u32>, little_endian: bool, i: int)
    requires
        0 <= i < words.len(),
    ensures
        words_bytes(words, little_endian).len() == 4 * words.len(),
        words_bytes(words, little_endian).subrange(4 * i, 4 * i + 4) == word_bytes(words[i], little_endian),
    decreases words.len(),
{
    lemma_words_bytes_len(words, little_endian);
    let before = words.drop_last();
    lemma_words_bytes_len(before, little_endian);
    if i < words.len() - 1 {
        lemma_words_bytes_index(before, little_endian, i);
        assert(words_bytes(words, little_endian).subrange(4 * i, 4 * i + 4) =~= words_bytes(
            before,
            little_endian,
        ).subrange(4 * i, 4 * i + 4));
    } else {
        assert(words_bytes(words, little_endian).subrange(4 * i, 4 * i + 4) =~= word_bytes(
            words.last(),
            little_endian,
        ));
    }
}

/// Reading the bytes of a run of words back, four at a time in the same
/// byte order, gives the words.
pub proof fn lemma_words_bytes_read_back(words: Seq<u32>, little_endian: bool, i: int)
    requires
        0 <= i < words.len(),
    ensures
        word_at(words_bytes(words, little_endian), i, little_endian) == words[i],
{
    lemma_words_bytes_index(words, little_endian, i);
    lemma_word_bytes_read_back(words[i], little_endian);
    let w = word_bytes(words[i], little_endian);
    assert(w.subrange(0, 4) =~= w);
}

/// The words of the `j`-th node stand at words `8 * j` to `8 * j + 8`.
proof fn lemma_syntax_nodes_words_index(nodes: Seq<SyntaxNode>, j: int)
    requires
        0 <= j < nodes.len(),
    ensures
        syntax_nodes_words(nodes).subrange(8 * j, 8 * j + 8) == syntax_node_words(nodes[j]),
    decreases nodes.len(),
{
    let before = nodes.drop_last();
    lemma_syntax_nodes_words_len(before);
    lemma_syntax_nodes_words_len(nodes);
    if j < nodes.len() - 1 {
        lemma_syntax_nodes_words_index(before, j);
        assert(syntax_nodes_words(nodes).subrange(8 * j, 8 * j + 8) =~= syntax_nodes_words(before).subrange(
            8 * j,
            8 * j + 8,
        ));
    } else {
        assert(syntax_nodes_words(nodes).subrange(8 * j, 8 * j + 8) =~= syntax_node_words(nodes.last()));
    }
}

/// The words of the syntax tree buffer, offset by offset: word 0 is the
/// number of nodes, word 1 the number of game objects, words 2 and 3 are
/// zero, and node `j`'s fields `parent`, `left`, `left_neg`, `right`,
/// `right_neg`, `right_gameobj`, `min`, `_pad` are words `4 + 8 * j` to
/// `4 + 8 * j + 7`, in that order.
pub proof fn lemma_syntax_tree_words_layout<L>(tree: FlatRenderTree<L>)
    ensures
        ({
            let words = syntax_node_storage_words(spec_node_storage(tree)) + syntax_nodes_words(tree.nodes@);
            &&& words.len() == 4 + 8 * tree.nodes@.len()
            &&& words[0] == tree.nodes@.len() as i32 as u32
            &&& words[1] == tree.first_layer_length as i32 as u32
            &&& words[2] == 0 && words[3] == 0
            &&& forall|j: int|
                0 <= j < tree.nodes@.len() ==> {
                    &&& words[4 + 8 * j] == (#[trigger] tree.nodes@[j]).parent as u32
                    &&& words[4 + 8 * j + 1] == tree.nodes@[j].left as u32
                    &&& words[4 + 8 * j + 2] == tree.nodes@[j].left_neg
                    &&& words[4 + 8 * j + 3] == tree.nodes@[j].right as u32
                    &&& words[4 + 8 * j + 4] == tree.nodes@[j].right_neg as u32
                    &&& words[4 + 8 * j + 5] == tree.nodes@[j].right_gameobj
                    &&& words[4 + 8 * j + 6] == tree.nodes@[j].min
                    &&& words[4 + 8 * j + 7] == tree.nodes@[j]._pad[0]
                }
        }),
{
    let header = syntax_node_storage_words(spec_node_storage(tree));
    let body = syntax_nodes_words(tree.nodes@);
    let words = header + body;
    lemma_syntax_nodes_words_len(tree.nodes@);
    assert forall|j: int| 0 <= j < tree.nodes@.len() implies {
        &&& words[4 + 8 * j] == (#[trigger] tree.nodes@[j]).parent as u32
        &&& words[4 + 8 * j + 1] == tree.nodes@[j].left as u32
        &&& words[4 + 8 * j + 2] == tree.nodes@[j].left_neg
        &&& words[4 + 8 * j + 3] == tree.nodes@[j].right as u32
        &&& words[4 + 8 * j + 4] == tree.nodes@[j].right_neg as u32
        &&& words[4 + 8 * j + 5] == tree.nodes@[j].right_gameobj
        &&& words[4 + 8 * j + 6] == tree.nodes@[j].min
        &&& words[4 + 8 * j + 7] == tree.nodes@[j]._pad[0]
    } by {
        lemma_syntax_nodes_words_index(tree.nodes@, j);
        let sub = body.subrange(8 * j, 8 * j + 8);
        assert forall|f: int| 0 <= f < 8 implies words[4 + 8 * j + f] == #[trigger] sub[f] by {
            assert(words[4 + 8 * j + f] == body[8 * j + f]);
        }
        assert(words[4 + 8 * j] == sub[0]);
        assert(words[4 + 8 * j + 1] == sub[1]);
        assert(words[4 + 8 * j + 2] == sub[2]);
        assert(words[4 + 8 * j + 3] == sub[3]);
        assert(words[4 + 8 * j + 4] == sub[4]);
        assert(words[4 + 8 * j + 5] == sub[5]);
        assert(words[4 + 8 * j + 6] == sub[6]);
        assert(words[4 + 8 * j + 7] == sub[7]);
    }
}

/// What the shader reads back from the syntax tree buffer, four bytes at a
/// time in the byte order it was written in, is what the scene holds: 16 +
/// 32 bytes a node, word 0 the number of nodes, word 1 the number of game
/// objects, words 2 and 3 zero, and node `j`'s fields in declaration order at
/// words `4 + 8 * j` to `4 + 8 * j + 7`.
pub proof fn lemma_syntax_tree_buffer_read_back<L>(tree: FlatRenderTree<L>, little_endian: bool)
    ensures
        ({
            let bytes = words_bytes(
                syntax_node_storage_words(spec_node_storage(tree)) + syntax_nodes_words(tree.nodes@),
                little_endian,
            );
            {
                &&& bytes.len() == 16 + 32 * tree.nodes@.len()
                &&& word_at(bytes, 0, little_endian) == tree.nodes@.len() as i32 as u32
                &&& word_at(bytes, 1, little_endian) == tree.first_layer_length as i32 as u32
                &&& word_at(bytes, 2, little_endian) == 0
                &&& word_at(bytes, 3, little_endian) == 0
                &&& forall|j: int|
                    0 <= j < tree.nodes@.len() ==> {
                        &&& word_at(bytes, 4 + 8 * j, little_endian) == (#[trigger] tree.nodes@[j]).parent as u32
                        &&& word_at(bytes, 4 + 8 * j + 1, little_endian) == tree.nodes@[j].left as u32
                        &&& word_at(bytes, 4 + 8 * j + 2, little_endian) == tree.nodes@[j].left_neg
                        &&& word_at(bytes, 4 + 8 * j + 3, little_endian) == tree.nodes@[j].right as u32
                        &&& word_at(bytes, 4 + 8 * j + 4, little_endian) == tree.nodes@[j].right_neg as u32
                        &&& word_at(bytes, 4 + 8 * j + 5, little_endian) == tree.nodes@[j].right_gameobj
                        &&& word_at(bytes, 4 + 8 * j + 6, little_endian) == tree.nodes@[j].min
                        &&& word_at(bytes, 4 + 8 * j + 7, little_endian) == tree.nodes@[j]._pad[0]
                    }
            }
        }),
{
    let words = syntax_node_storage_words(spec_node_storage(tree)) + syntax_nodes_words(tree.nodes@);
    let bytes = words_bytes(words, little_endian);
    lemma_syntax_tree_words_layout(tree);
    lemma_syntax_tree_buffer_len(tree, little_endian);
    lemma_words_bytes_read_back(words, little_endian, 0);
    lemma_words_bytes_read_back(words, little_endian, 1);
    lemma_words_bytes_read_back(words, little_endian, 2);
    lemma_words_bytes_read_back(words, little_endian, 3);
    assert forall|j: int| 0 <= j < tree.nodes@.len() implies {
        &&& word_at(bytes, 4 + 8 * j, little_endian) == (#[trigger] tree.nodes@[j]).parent as u32
        &&& word_at(bytes, 4 + 8 * j + 1, little_endian) == tree.nodes@[j].left as u32
        &&& word_at(bytes, 4 + 8 * j + 2, little_endian) == tree.nodes@[j].left_neg
        &&& word_at(bytes, 4 + 8 * j + 3, little_endian) == tree.nodes@[j].right as u32
        &&& word_at(bytes, 4 + 8 * j + 4, little_endian) == tree.nodes@[j].right_neg as u32
        &&& word_at(bytes, 4 + 8 * j + 5, little_endian) == tree.nodes@[j].right_gameobj
        &&& word_at(bytes, 4 + 8 * j + 6, little_endian) == tree.nodes@[j].min
        &&& word_at(bytes, 4 + 8 * j + 7, little_endian) == tree.nodes@[j]._pad[0]
    } by {
        lemma_words_bytes_read_back(words, little_endian, 4 + 8 * j);
        lemma_words_bytes_read_back(words, little_endian, 4 + 8 * j + 1);
        lemma_words_bytes_read_back(words, little_endian, 4 + 8 * j + 2);
        lemma_words_bytes_read_back(words, little_endian, 4 + 8 * j + 3);
        lemma_words_bytes_read_back(words, little_endian, 4 + 8 * j + 4);
        lemma_words_bytes_read_back(words, little_endian, 4 + 8 * j + 5);
        lemma_words_bytes_read_back(words, little_endian, 4 + 8 * j + 6);
        lemma_words_bytes_read_back(words, little_endian, 4 + 8 * j + 7);
    }
}

/// The headers count what follows them: the syntax tree header holds the
/// number of nodes and of game objects, the leaf header the number of
/// leaves, and their padding is zero.
pub proof fn lemma_storage_headers_count<L>(tree: FlatRenderTree<L>)
    ensures
        spec_node_storage(tree).length == tree.nodes@.len() as i32,
        spec_node_storage(tree).num_root == tree.first_layer_length as i32,
        spec_node_storage(tree)._pad[0] == 0 && spec_node_storage(tree)._pad[1] == 0,
        spec_leaf_storage(tree).length == tree.leafs@.len() as u32,
        spec_leaf_storage(tree)._pad[0] == 0 && spec_leaf_storage(tree)._pad[1] == 0
            && spec_leaf_storage(tree)._pad[2] == 0,
{
}

/// The leaf buffer's header, read back four bytes at a time in the byte
/// order it was written in, is the number of leaves followed by three zero
/// words.
pub proof fn lemma_leaf_header_read_back<L>(tree: FlatRenderTree<L>, little_endian: bool)
    ensures
        ({
            let bytes = words_bytes(leaf_object_storage_words(spec_leaf_storage(tree)), little_endian);
            &&& bytes.len() == 16
            &&& word_at(bytes, 0, little_endian) == tree.leafs@.len() as u32
            &&& word_at(bytes, 1, little_endian) == 0
            &&& word_at(bytes, 2, little_endian) == 0
            &&& word_at(bytes, 3, little_endian) == 0
        }),
{
    let words = leaf_object_storage_words(spec_leaf_storage(tree));
    lemma_words_bytes_len(words, little_endian);
    lemma_words_bytes_read_back(words, little_endian, 0);
    lemma_words_bytes_read_back(words, little_endian, 1);
    lemma_words_bytes_read_back(words, little_endian, 2);
    lemma_words_bytes_read_back(words, little_endian, 3);
}

} // verus!
