use engine::gpu_structs::SyntaxNode;
use engine::object_tree::{build_render_tree, write_not_leaf, ObjectNode, ObjectNodeRaw, ObjectNodeType};
use engine::scene::Scene;

/// The shape data a leaf carries in these tests, compared with a tolerance
/// as the renderer's leaf objects are.
#[derive(Copy, Clone, Debug)]
struct LeafObject {
    position: [f32; 3],
    size: f32,
    color: [f32; 4],
}

impl Default for LeafObject {
    fn default() -> Self {
        LeafObject { position: [0.0, 0.0, 0.0], size: 1.0, color: [1.0, 1.0, 1.0, 1.0] }
    }
}

impl PartialEq for LeafObject {
    fn eq(&self, other: &Self) -> bool {
        self.position.iter().zip(other.position.iter()).all(|(a, b)| (a - b).abs() < 1e-6)
            && (self.size - other.size).abs() < 1e-6
            && self.color.iter().zip(other.color.iter()).all(|(a, b)| (a - b).abs() < 1e-6)
    }
}

fn sdf(x: f32, y: f32, z: f32) -> ObjectNode<LeafObject> {
    Box::new(ObjectNodeRaw {
        typ: ObjectNodeType::SDF(LeafObject {
            position: [x, y, z],
            size: 1.0,
            color: [1.0, 1.0, 1.0, 1.0],
        }),
    })
}

fn intersection(l: ObjectNode<LeafObject>, r: ObjectNode<LeafObject>) -> ObjectNode<LeafObject> {
    Box::new(ObjectNodeRaw { typ: ObjectNodeType::Intersection(l, r) })
}

fn union(l: ObjectNode<LeafObject>, r: ObjectNode<LeafObject>) -> ObjectNode<LeafObject> {
    Box::new(ObjectNodeRaw { typ: ObjectNodeType::Union(l, r) })
}

fn subtraction(l: ObjectNode<LeafObject>, r: ObjectNode<LeafObject>) -> ObjectNode<LeafObject> {
    Box::new(ObjectNodeRaw { typ: ObjectNodeType::Subtraction(l, r) })
}

/// The dummy game object: two spheres intersected.
fn dummy() -> ObjectNode<LeafObject> {
    intersection(sdf(0.0, 0.0, 2.0), sdf(0.7, 0.0, 2.0))
}

/// The big dummy game object: a sphere intersected with the intersection of
/// two more.
fn big_dummy() -> ObjectNode<LeafObject> {
    intersection(sdf(1.0, 0.0, 0.0), intersection(sdf(2.0, 0.0, 0.0), sdf(3.0, 0.0, 0.0)))
}

fn trees_of(scene: &Scene<ObjectNode<LeafObject>>) -> Vec<&ObjectNodeRaw<LeafObject>> {
    scene.game_objects().iter().map(|t| t.as_ref()).collect()
}

#[test]
fn test_dummy() {
    let mut scene = Scene::new();
    scene.add(dummy());

    let render_tree = build_render_tree(&trees_of(&scene));

    assert_eq!(
        render_tree.nodes,
        vec![SyntaxNode {
            parent: -1,
            left: 0,
            left_neg: 0,
            right: 1,
            right_neg: 0,
            right_gameobj: 1,
            min: 1,
            _pad: [0,],
        },]
    );

    assert_eq!(
        render_tree.leafs,
        vec![
            LeafObject {
                position: [0.0, 0.0, 2.0,],
                size: 1.0,
                color: [1.0, 1.0, 1.0, 1.0,],
                ..Default::default()
            },
            LeafObject {
                position: [0.7, 0.0, 2.0,],
                size: 1.0,
                color: [1.0, 1.0, 1.0, 1.0,],
                ..Default::default()
            },
        ]
    );

    assert_eq!(render_tree.first_layer_length, 1);
}

#[test]
fn test_big_dummy() {
    let mut scene = Scene::new();
    scene.add(big_dummy());

    let render_tree = build_render_tree(&trees_of(&scene));

    assert_eq!(
        render_tree.nodes,
        vec![
            SyntaxNode {
                parent: -1,
                left: 0,
                left_neg: 0,
                right: 1,
                right_neg: 0,
                right_gameobj: 0,
                min: 1,
                _pad: [0,],
            },
            SyntaxNode {
                parent: 0,
                left: 1,
                left_neg: 0,
                right: 2,
                right_neg: 0,
                right_gameobj: 1,
                min: 1,
                _pad: [0,],
            },
        ]
    );

    assert_eq!(
        render_tree.leafs,
        vec![
            LeafObject {
                position: [1.0, 0.0, 0.0,],
                size: 1.0,
                color: [1.0, 1.0, 1.0, 1.0,],
                ..Default::default()
            },
            LeafObject {
                position: [2.0, 0.0, 0.0,],
                size: 1.0,
                color: [1.0, 1.0, 1.0, 1.0,],
                ..Default::default()
            },
            LeafObject {
                position: [3.0, 0.0, 0.0,],
                size: 1.0,
                color: [1.0, 1.0, 1.0, 1.0,],
                ..Default::default()
            },
        ]
    );

    assert_eq!(render_tree.first_layer_length, 1);
}

#[test]
fn test_big_and_small_dummy() {
    let mut scene = Scene::new();
    scene.add(dummy());
    scene.add(big_dummy());

    let render_tree = build_render_tree(&trees_of(&scene));

    assert_eq!(
        render_tree.nodes,
        vec![
            SyntaxNode {
                parent: -1,
                left: 0,
                left_neg: 0,
                right: 1,
                right_neg: 0,
                right_gameobj: 1,
                min: 1,
                _pad: [0,],
            },
            SyntaxNode {
                parent: -1,
                left: 2,
                left_neg: 0,
                right: 2,
                right_neg: 0,
                right_gameobj: 0,
                min: 1,
                _pad: [0,],
            },
            SyntaxNode {
                parent: 1,
                left: 3,
                left_neg: 0,
                right: 4,
                right_neg: 0,
                right_gameobj: 1,
                min: 1,
                _pad: [0,],
            },
        ]
    );

    assert_eq!(
        render_tree.leafs,
        vec![
            LeafObject {
                position: [0.0, 0.0, 2.0,],
                size: 1.0,
                color: [1.0, 1.0, 1.0, 1.0,],
                ..Default::default()
            },
            LeafObject {
                position: [0.7, 0.0, 2.0,],
                size: 1.0,
                color: [1.0, 1.0, 1.0, 1.0,],
                ..Default::default()
            },
            LeafObject {
                position: [1.0, 0.0, 0.0,],
                size: 1.0,
                color: [1.0, 1.0, 1.0, 1.0,],
                ..Default::default()
            },
            LeafObject {
                position: [2.0, 0.0, 0.0,],
                size: 1.0,
                color: [1.0, 1.0, 1.0, 1.0,],
                ..Default::default()
            },
            LeafObject {
                position: [3.0, 0.0, 0.0,],
                size: 1.0,
                color: [1.0, 1.0, 1.0, 1.0,],
                ..Default::default()
            },
        ]
    );

    assert_eq!(render_tree.first_layer_length, 2);
}

#[test]
fn union_and_subtraction_set_their_flags() {
    let u = union(sdf(0.0, 0.0, 0.0), subtraction(sdf(1.0, 0.0, 0.0), sdf(2.0, 0.0, 0.0)));
    let render_tree = build_render_tree(&vec![u.as_ref()]);
    assert_eq!(
        render_tree.nodes,
        vec![
            SyntaxNode { parent: -1, left: 0, left_neg: 0, right: 1, right_neg: 0, right_gameobj: 0, min: 0, _pad: [0] },
            SyntaxNode { parent: 0, left: 1, left_neg: 0, right: 2, right_neg: 1, right_gameobj: 1, min: 0, _pad: [0] },
        ]
    );
    assert_eq!(render_tree.leafs.len(), 3);
    assert_eq!(render_tree.first_layer_length, 1);
}

#[test]
fn lone_leaf_tree_adds_a_leaf_and_no_node() {
    let leaf = sdf(5.0, 0.0, 0.0);
    let d = dummy();
    let render_tree = build_render_tree(&vec![leaf.as_ref(), d.as_ref()]);
    // the dummy's node comes first in the buffer; its leaves follow the lone leaf
    assert_eq!(
        render_tree.nodes,
        vec![SyntaxNode { parent: -1, left: 1, left_neg: 0, right: 2, right_neg: 0, right_gameobj: 1, min: 1, _pad: [0] }]
    );
    assert_eq!(render_tree.leafs[0].position, [5.0, 0.0, 0.0]);
    assert_eq!(render_tree.leafs.len(), 3);
    assert_eq!(render_tree.first_layer_length, 2);
}

#[test]
fn links_of_a_deep_tree_point_back_and_forth() {
    // right-leaning chain of four combining nodes over two game objects
    let deep = union(
        sdf(0.0, 0.0, 0.0),
        intersection(sdf(1.0, 0.0, 0.0), subtraction(sdf(2.0, 0.0, 0.0), union(sdf(3.0, 0.0, 0.0), sdf(4.0, 0.0, 0.0)))),
    );
    let d = dummy();
    let render_tree = build_render_tree(&vec![d.as_ref(), deep.as_ref()]);
    let nodes = &render_tree.nodes;
    assert_eq!(nodes.len(), 5);
    assert_eq!(render_tree.leafs.len(), 7);
    for (j, n) in nodes.iter().enumerate() {
        assert!(0 <= n.left && (n.left as usize) < render_tree.leafs.len());
        if n.right_gameobj == 0 {
            assert!((n.right as usize) > j && (n.right as usize) < nodes.len());
            assert_eq!(nodes[n.right as usize].parent, j as i32);
        } else {
            assert!((n.right as usize) < render_tree.leafs.len());
        }
        if n.parent != -1 {
            let p = &nodes[n.parent as usize];
            assert_eq!(p.right_gameobj, 0);
            assert_eq!(p.right, j as i32);
        }
    }
    let roots: Vec<usize> = (0..nodes.len()).filter(|&j| nodes[j].parent == -1).collect();
    assert_eq!(roots, vec![0, 1]);
}

#[test]
fn left_operand_check_finds_a_combining_left_operand() {
    let good = big_dummy();
    assert!(good.left_operands_are_leaves());
    assert!(!good.typ.is_sdf());
    let bad = union(dummy(), sdf(1.0, 0.0, 0.0));
    assert!(!bad.left_operands_are_leaves());
    let nested_bad = intersection(sdf(0.0, 0.0, 0.0), union(dummy(), sdf(1.0, 0.0, 0.0)));
    assert!(!nested_bad.left_operands_are_leaves());
    assert!(sdf(0.0, 0.0, 0.0).left_operands_are_leaves());
}

#[test]
fn added_tree_is_flattened_alone_and_moved_along() {
    let d = dummy();
    let b = big_dummy();
    let before = build_render_tree(&vec![d.as_ref()]);
    let alone = build_render_tree(&vec![b.as_ref()]);
    let after = build_render_tree(&vec![d.as_ref(), b.as_ref()]);
    let dn = before.nodes.len() as i32;
    let dl = before.leafs.len() as i32;
    let mut expected = before.nodes.clone();
    for n in &alone.nodes {
        let mut m = *n;
        if m.parent != -1 {
            m.parent += dn;
        }
        m.left += dl;
        m.right += if m.right_gameobj == 1 { dl } else { dn };
        expected.push(m);
    }
    assert_eq!(after.nodes, expected);
    let mut leafs = before.leafs.clone();
    leafs.extend(alone.leafs.iter().copied());
    assert_eq!(after.leafs, leafs);
    assert_eq!(after.first_layer_length, 2);
}

#[test]
fn write_not_leaf_fills_a_node_that_is_not_the_last() {
    let mut nodes = vec![SyntaxNode::default(), SyntaxNode { parent: 7, ..SyntaxNode::default() }];
    let mut leafs: Vec<LeafObject> = vec![LeafObject::default()];
    let left = sdf(1.0, 0.0, 0.0);
    let right = intersection(sdf(2.0, 0.0, 0.0), sdf(3.0, 0.0, 0.0));
    write_not_leaf(0, &mut nodes, &mut leafs, &left, &right);
    assert_eq!(nodes.len(), 3);
    assert_eq!(nodes[0], SyntaxNode { parent: 0, left: 1, left_neg: 0, right: 2, right_neg: 0, right_gameobj: 0, min: 0, _pad: [0] });
    assert_eq!(nodes[1], SyntaxNode { parent: 7, ..SyntaxNode::default() });
    assert_eq!(nodes[2], SyntaxNode { parent: 0, left: 2, left_neg: 0, right: 3, right_neg: 0, right_gameobj: 1, min: 1, _pad: [0] });
    assert_eq!(leafs.len(), 4);
}
