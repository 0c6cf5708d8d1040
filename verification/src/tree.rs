//! The data model: leaves, nodes and trees, what they stand for, and how
//! single entries are made and compared.
use vstd::prelude::*;
use crate::bytes::AsBytes;
use crate::hasher::{Blake2bHasher, Hasher};
use vstd::std_specs::cmp::PartialEqSpecImpl;
use vstd::std_specs::convert::FromSpecImpl;

verus! {

/// A tree entry that wraps one item together with the digest of its bytes.
#[derive(PartialEq, Debug)]
pub struct MerkleLeaf<T> {
    pub hash: Vec<u8>,
    pub data: T,
}

/// A tree entry that joins two children under the digest of their digests.
#[derive(PartialEq, Debug)]
pub struct MerkleNode<T> {
    pub hash: Vec<u8>,
    pub left: Box<Node<T>>,
    pub right: Box<Node<T>>,
}

/// A position in a tree: either a branch or a leaf.
#[derive(PartialEq, Debug)]
pub enum Node<T> {
    Node(MerkleNode<T>),
    Leaf(MerkleLeaf<T>),
}

/// A tree, known by its root.
#[derive(Debug)]
pub struct MerkleTree<T> {
    pub root: Node<T>,
}

/// The mathematical content of a tree entry.
pub enum NodeView<T> {
    Leaf { digest: Seq<u8>, data: T },
    Node { digest: Seq<u8>, left: Box<NodeView<T>>, right: Box<NodeView<T>> },
}

impl<T> NodeView<T> {
    /// The digest stored at this entry.
    pub open spec fn digest(self) -> Seq<u8> {
        match self {
            NodeView::Leaf { digest, .. } => digest,
            NodeView::Node { digest, .. } => digest,
        }
    }

    /// The items below this entry, from left to right.
    pub open spec fn leaves(self) -> Seq<T>
        decreases self,
    {
        match self {
            NodeView::Leaf { data, .. } => seq![data],
            NodeView::Node { left, right, .. } => left.leaves() + right.leaves(),
        }
    }

    /// The number of branches on the longest path down to a leaf.
    pub open spec fn height(self) -> nat
        decreases self,
    {
        match self {
            NodeView::Leaf { .. } => 0,
            NodeView::Node { left, right, .. } => {
                let l = left.height();
                let r = right.height();
                if l >= r { l + 1 } else { r + 1 }
            },
        }
    }

    /// Every leaf lies equally deep: the two children of every branch have
    /// the same height.
    pub open spec fn perfect(self) -> bool
        decreases self,
    {
        match self {
            NodeView::Leaf { .. } => true,
            NodeView::Node { left, right, .. } => {
                &&& left.perfect()
                &&& right.perfect()
                &&& left.height() == right.height()
            },
        }
    }

    /// The branch that `hasher` puts above `left` and `right`: its digest is
    /// the hash of the left digest followed by the right digest.
    pub open spec fn join<H: Hasher>(hasher: &H, left: Self, right: Self) -> Self {
        NodeView::Node {
            digest: hasher.digest(left.digest() + right.digest()),
            left: Box::new(left),
            right: Box::new(right),
        }
    }
}

impl<T: Clone> NodeView<T> {
    /// This entry has the shape and the digests of `source`, and each of
    /// its items is a clone of the item in the same place there.
    pub open spec fn is_clone_of(self, source: Self) -> bool
        decreases self,
    {
        match (self, source) {
            (NodeView::Leaf { digest, data }, NodeView::Leaf { digest: d, data: x }) => {
                digest == d && cloned::<T>(x, data)
            },
            (
                NodeView::Node { digest, left, right },
                NodeView::Node { digest: d, left: l, right: r },
            ) => {
                &&& digest == d
                &&& left.is_clone_of(*l)
                &&& right.is_clone_of(*r)
            },
            _ => false,
        }
    }
}

impl<T: AsBytes> NodeView<T> {
    /// The leaf that `hasher` makes of `data`.
    pub open spec fn leaf<H: Hasher>(hasher: &H, data: T) -> Self {
        NodeView::Leaf { digest: hasher.digest(data.bytes()), data }
    }

    /// Every digest at or below this entry is what `hasher` computes from
    /// what lies directly beneath it, and has the length of its digests.
    pub open spec fn consistent<H: Hasher>(self, hasher: &H) -> bool
        decreases self,
    {
        match self {
            NodeView::Leaf { digest, data } => {
                &&& digest == hasher.digest(data.bytes())
                &&& digest.len() == hasher.digest_len()
            },
            NodeView::Node { digest, left, right } => {
                &&& digest == hasher.digest(left.digest() + right.digest())
                &&& digest.len() == hasher.digest_len()
                &&& left.consistent(hasher)
                &&& right.consistent(hasher)
            },
        }
    }
}

impl<T> View for MerkleLeaf<T> {
    type V = NodeView<T>;

    open spec fn view(&self) -> NodeView<T> {
        NodeView::Leaf { digest: self.hash@, data: self.data }
    }
}

impl<T> View for Node<T> {
    type V = NodeView<T>;

    open spec fn view(&self) -> NodeView<T>
        decreases self,
    {
        match self {
            Node::Leaf(l) => NodeView::Leaf { digest: l.hash@, data: l.data },
            Node::Node(n) => NodeView::Node {
                digest: n.hash@,
                left: Box::new((*n.left).view()),
                right: Box::new((*n.right).view()),
            },
        }
    }
}

impl<T> View for MerkleTree<T> {
    type V = NodeView<T>;

    open spec fn view(&self) -> NodeView<T> {
        self.root@
    }
}

impl<T> View for MerkleNode<T> {
    type V = NodeView<T>;

    open spec fn view(&self) -> NodeView<T> {
        NodeView::Node {
            digest: self.hash@,
            left: Box::new((*self.left).view()),
            right: Box::new((*self.right).view()),
        }
    }
}

impl<T: Clone> Clone for MerkleLeaf<T> {
    fn clone(&self) -> (res: Self)
        ensures
            res@.is_clone_of(self@),
    {
        MerkleLeaf { hash: self.hash.clone(), data: self.data.clone() }
    }
}

impl<T: Clone> Clone for Node<T> {
    fn clone(&self) -> (res: Self)
        ensures
            res@.is_clone_of(self@),
        decreases self,
    {
        match self {
            Node::Leaf(l) => Node::Leaf(
                MerkleLeaf { hash: l.hash.clone(), data: l.data.clone() },
            ),
            Node::Node(n) => Node::Node(
                MerkleNode {
                    hash: n.hash.clone(),
                    left: Box::new((&*n.left).clone()),
                    right: Box::new((&*n.right).clone()),
                },
            ),
        }
    }
}

impl<T: Clone> Clone for MerkleNode<T> {
    fn clone(&self) -> (res: Self)
        ensures
            res@.is_clone_of(self@),
    {
        MerkleNode {
            hash: self.hash.clone(),
            left: Box::new((&*self.left).clone()),
            right: Box::new((&*self.right).clone()),
        }
    }
}

impl<T: Clone> Clone for MerkleTree<T> {
    fn clone(&self) -> (res: Self)
        ensures
            res@.is_clone_of(self@),
    {
        MerkleTree { root: self.root.clone() }
    }
}

impl<T> Node<T> {
    /// The digest stored at this entry.
    pub fn hash(&self) -> (digest: &Vec<u8>)
        ensures
            digest@ == self@.digest(),
    {
        match self {
            Node::Node(n) => &n.hash,
            Node::Leaf(l) => &l.hash,
        }
    }
}

impl<T: AsBytes> MerkleNode<T> {
    /// Joins `left` and `right` under a new branch whose digest is the hash
    /// of the left digest followed, without a separator, by the right one.
    pub fn new<H: Hasher>(hasher: &H, left: Node<T>, right: Node<T>) -> (node: MerkleNode<T>)
        ensures
            node@ == NodeView::join(hasher, left@, right@),
            *node.left == left,
            *node.right == right,
            left@.consistent(hasher) && right@.consistent(hasher) ==> node@.consistent(hasher),
    {
        let mut concat = left.hash().clone();
        concat.extend_from_slice(right.hash().as_slice());
        assert(concat@ =~= left@.digest() + right@.digest());
        let hash = hasher.hash(concat.as_slice());
        MerkleNode { hash, left: Box::new(left), right: Box::new(right) }
    }
}

impl<T: AsBytes> MerkleLeaf<T> {
    /// Wraps `data` in a leaf whose digest is the hash of its bytes.
    pub fn new<H: Hasher>(hasher: &H, data: T) -> (leaf: MerkleLeaf<T>)
        ensures
            leaf@ == NodeView::leaf(hasher, data),
            leaf.data == data,
            leaf@.consistent(hasher),
    {
        let hash = hasher.hash(data.as_byte_slice());
        MerkleLeaf { hash, data }
    }
}

impl<T: AsBytes> From<T> for MerkleLeaf<T> {
    /// Wraps `data` in a leaf whose digest is the BLAKE2b hash of its bytes.
    fn from(data: T) -> (leaf: Self)
        ensures
            leaf@ == NodeView::leaf(&Blake2bHasher, data),
            leaf.data == data,
            leaf@.consistent(&Blake2bHasher),
    {
        MerkleLeaf::new(&Blake2bHasher, data)
    }
}

impl<T: AsBytes> FromSpecImpl<T> for MerkleLeaf<T> {
    /// A leaf is known by its view; `from` states what it returns itself.
    open spec fn obeys_from_spec() -> bool {
        false
    }

    open spec fn from_spec(data: T) -> Self {
        arbitrary()
    }
}

impl<T> PartialEq for MerkleTree<T> {
    /// Two trees are equal when their root digests are, byte for byte.
    /// Nothing below the roots is looked at.
    fn eq(&self, other: &Self) -> (equal: bool) {
        let mine = self.root.hash();
        let theirs = other.root.hash();
        assert(mine@.len() == theirs@.len() && (forall|i: int|
            0 <= i < mine@.len() ==> mine@[i] == theirs@[i]) ==> mine@ =~= theirs@);
        mine == theirs
    }
}

impl<T> PartialEqSpecImpl for MerkleTree<T> {
    open spec fn obeys_eq_spec() -> bool {
        true
    }

    open spec fn eq_spec(&self, other: &Self) -> bool {
        self@.digest() == other@.digest()
    }
}

} // verus!
