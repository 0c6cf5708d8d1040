use merkle_tree::{Blake2bHasher, MerkleError, MerkleLeaf, MerkleNode, MerkleTree, Node};

#[test]
fn lib_it_hashes_leaf_data_correctly() {
    let data = "test_data".to_string();
    let merkle_leaf = MerkleLeaf::from(data.clone());

    assert_eq!(merkle_leaf.data, data);
    assert_eq!(merkle_leaf.hash, vec![249, 124, 220, 236, 144, 165, 213, 107, 109, 161, 237, 2, 189, 209, 247, 92, 37, 154, 19, 252, 148, 61, 177, 152, 191, 210, 99, 37, 220, 74, 109, 173, 226, 207, 47, 193, 127, 30, 50, 125, 215, 44, 65, 50, 171, 129, 48, 75, 122, 77, 104, 172, 67, 6, 244, 15, 43, 221, 31, 185, 131, 100, 229, 140]);
}

#[test]
fn tree_it_hashes_leaf_data_correctly() {
    let data = "test_data".as_bytes();
    let merkle_leaf = MerkleLeaf::from(data);

    assert_eq!(merkle_leaf.data, data);
    assert_eq!(merkle_leaf.hash, vec![249, 124, 220, 236, 144, 165, 213, 107, 109, 161, 237, 2, 189, 209, 247, 92, 37, 154, 19, 252, 148, 61, 177, 152, 191, 210, 99, 37, 220, 74, 109, 173, 226, 207, 47, 193, 127, 30, 50, 125, 215, 44, 65, 50, 171, 129, 48, 75, 122, 77, 104, 172, 67, 6, 244, 15, 43, 221, 31, 185, 131, 100, 229, 140]);
}

#[test]
fn it_hashes_node_from_leaves() {
    let merkle_leaf = Node::Leaf(MerkleLeaf::from("test_data".as_bytes()));
    let merkle_leaf_2 = Node::Leaf(MerkleLeaf::from("test_data".as_bytes()));

    let merkle_node = MerkleNode::new(&Blake2bHasher, merkle_leaf.clone(), merkle_leaf_2.clone());

    assert_eq!(*merkle_node.left, merkle_leaf);
    assert_eq!(*merkle_node.right, merkle_leaf_2);
    assert_eq!(merkle_node.hash, vec![86, 212, 98, 60, 48, 40, 135, 164, 65, 171, 245, 66, 46, 100, 170, 222, 5, 167, 146, 71, 129, 154, 168, 28, 81, 169, 177, 176, 169, 44, 219, 22, 192, 226, 56, 186, 175, 151, 152, 182, 105, 166, 119, 22, 182, 40, 139, 10, 210, 153, 159, 114, 133, 194, 226, 99, 178, 148, 175, 2, 224, 65, 189, 34]);
}

#[test]
fn it_builds_merkle_tree_from_vec() {
    let merkle_tree = MerkleTree::from_vec(vec!["a", "b", "c", "d"]).unwrap();

    assert_eq!(merkle_tree.root,
               Node::Node(MerkleNode::new(
                   &Blake2bHasher,
                   Node::Node(MerkleNode::new(&Blake2bHasher, Node::Leaf(MerkleLeaf::from("a")), Node::Leaf(MerkleLeaf::from("b")))),
                   Node::Node(MerkleNode::new(&Blake2bHasher, Node::Leaf(MerkleLeaf::from("c")), Node::Leaf(MerkleLeaf::from("d"))),
                   ))));
}

#[test]
#[should_panic]
fn it_panics_when_building_merkle_tree_from_odd_len_vec() {
    let _merkle_tree = MerkleTree::from_vec(vec!["a", "b", "c"]).unwrap();
}

#[test]
fn it_rejects_odd_len_vec() {
    let result = MerkleTree::from_vec(vec!["a", "b", "c"]);

    assert_eq!(result.err(), Some(MerkleError::MalformedInput));
}

#[test]
fn it_compares_merkle_trees() {
    let merkle_tree = MerkleTree::from_vec(vec!["a", "b", "c", "d"]).unwrap();
    let eq_tree = MerkleTree::from_vec(vec!["a", "b", "c", "d"]).unwrap();
    let diff_tree = MerkleTree::from_vec(vec!["d", "b", "c", "d"]).unwrap();

    assert_eq!(merkle_tree, eq_tree);
    assert_ne!(merkle_tree, diff_tree);
}
