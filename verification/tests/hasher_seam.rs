use merkle_tree::{ChecksumHasher, Hasher, MerkleError, MerkleLeaf, MerkleNode, MerkleTree, Node};

#[test]
fn checksum_rolls_over_the_bytes_in_order() {
    assert_eq!(ChecksumHasher.hash(b""), vec![0]);
    assert_eq!(ChecksumHasher.hash(b"a"), vec![97]);
    // (97 * 31 + 98) % 256
    assert_eq!(ChecksumHasher.hash(b"ab"), vec![33]);
    // (98 * 31 + 97) % 256
    assert_eq!(ChecksumHasher.hash(b"ba"), vec![63]);
}

#[test]
fn leaf_uses_the_given_hasher() {
    let leaf = MerkleLeaf::new(&ChecksumHasher, "ab");

    assert_eq!(leaf.data, "ab");
    assert_eq!(leaf.hash, vec![33]);
}

#[test]
fn node_hashes_left_digest_then_right_digest() {
    let a = Node::Leaf(MerkleLeaf::new(&ChecksumHasher, "a"));
    let b = Node::Leaf(MerkleLeaf::new(&ChecksumHasher, "b"));
    assert_eq!(a.hash(), &vec![97]);
    assert_eq!(b.hash(), &vec![98]);

    let ab = MerkleNode::new(&ChecksumHasher, a.clone(), b.clone());
    let ba = MerkleNode::new(&ChecksumHasher, b, a);

    // the checksum of [97, 98], and that of [98, 97]
    assert_eq!(ab.hash, vec![33]);
    assert_eq!(ba.hash, vec![63]);
}

#[test]
fn tree_is_built_with_the_given_hasher() {
    let tree = MerkleTree::from_vec_with(&ChecksumHasher, vec!["a", "b", "c", "d"]).unwrap();

    // leaves 97 98 99 100; pairs (97, 98) -> 33 and (99, 100) -> 97; root (33, 97) -> 96
    match &tree.root {
        Node::Node(root) => {
            assert_eq!(root.hash, vec![96]);
            assert_eq!(root.left.hash(), &vec![33]);
            assert_eq!(root.right.hash(), &vec![97]);
        }
        Node::Leaf(_) => panic!("four items give a branch at the root"),
    }

    let swapped = MerkleTree::from_vec_with(&ChecksumHasher, vec!["b", "a", "c", "d"]).unwrap();
    // pairs (98, 97) -> 63; root (63, 97) -> 2
    assert_eq!(swapped.root.hash(), &vec![2]);
    assert_ne!(tree, swapped);
}

#[test]
fn given_hasher_rejects_malformed_input_too() {
    let odd = MerkleTree::from_vec_with(&ChecksumHasher, vec!["a", "b", "c"]);
    let none = MerkleTree::from_vec_with(&ChecksumHasher, Vec::<&str>::new());

    assert_eq!(odd.err(), Some(MerkleError::MalformedInput));
    assert_eq!(none.err(), Some(MerkleError::MalformedInput));
}

#[test]
fn equality_ignores_content_when_digests_collide() {
    // the checksums of the empty input and of a single zero byte are both 0
    let empty_item = MerkleTree::from_vec_with(&ChecksumHasher, vec![Vec::<u8>::new()]).unwrap();
    let zero_item = MerkleTree::from_vec_with(&ChecksumHasher, vec![vec![0u8]]).unwrap();

    assert_ne!(empty_item.root, zero_item.root);
    assert_eq!(empty_item.root.hash(), zero_item.root.hash());
    assert_eq!(empty_item, zero_item);
}
