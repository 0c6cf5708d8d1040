//! Building a tree: pairwise reduction of a level of entries down to a root.
use vstd::prelude::*;
use crate::bytes::AsBytes;
use crate::hasher::{Blake2bHasher, Hasher};
use crate::laws::{lemma_tree_is_perfect, lemma_tree_keeps_items, lemma_tree_root_digest};
use crate::tree::{MerkleLeaf, MerkleNode, MerkleTree, Node, NodeView};

verus! {

/// Why a tree could not be built.
#[derive(Clone, Copy, Debug, PartialEq, Eq, Structural)]
pub enum MerkleError {
    /// The entries cannot be paired off level by level down to one root:
    /// there are none, or some level holds an odd number of them.
    MalformedInput,
}

/// `n` is one of 1, 2, 4, 8, ...: halving it again and again reaches 1
/// without ever meeting an odd number on the way.
pub open spec fn is_power_of_two(n: nat) -> bool
    decreases n,
{
    n == 1 || (n >= 2 && n % 2 == 0 && is_power_of_two(n / 2))
}

/// How many times a level of `n` entries is halved before one is left.
pub open spec fn levels(n: nat) -> nat
    decreases n,
{
    if n <= 1 {
        0
    } else {
        1 + levels(n / 2)
    }
}

/// The contents of a level of entries, in order.
pub open spec fn views<T>(nodes: Seq<Node<T>>) -> Seq<NodeView<T>> {
    nodes.map_values(|n: Node<T>| n@)
}

impl<T> NodeView<T> {
    /// The root above a level of entries: a single entry is its own root,
    /// and a longer level is the branch over the roots of its two halves.
    pub open spec fn combine<H: Hasher>(hasher: &H, level: Seq<Self>) -> Self
        decreases level.len(),
    {
        if level.len() <= 1 {
            level[0]
        } else {
            let mid = level.len() as int / 2;
            Self::join(
                hasher,
                Self::combine(hasher, level.subrange(0, mid)),
                Self::combine(hasher, level.subrange(mid, level.len() as int)),
            )
        }
    }

    /// The level above `level`: its entries joined two by two, in order.
    pub open spec fn pair_up<H: Hasher>(hasher: &H, level: Seq<Self>) -> Seq<Self> {
        Seq::new(
            level.len() / 2,
            |i: int| Self::join(hasher, level[2 * i], level[2 * i + 1]),
        )
    }
}

/// The root digest above a level of digests: a single digest stands for
/// itself, and a longer level hashes to the digest of the root digest of
/// its first half followed by the root digest of its second half.
pub open spec fn root_digest<H: Hasher>(hasher: &H, digests: Seq<Seq<u8>>) -> Seq<u8>
    decreases digests.len(),
{
    if digests.len() <= 1 {
        digests[0]
    } else {
        let mid = digests.len() as int / 2;
        hasher.digest(
            root_digest(hasher, digests.subrange(0, mid)) + root_digest(
                hasher,
                digests.subrange(mid, digests.len() as int),
            ),
        )
    }
}

/// The digests that `hasher` gives to a sequence of items, in order.
pub open spec fn leaf_digests<T: AsBytes, H: Hasher>(hasher: &H, items: Seq<T>) -> Seq<Seq<u8>> {
    items.map_values(|x: T| hasher.digest(x.bytes()))
}

impl<T: AsBytes> NodeView<T> {
    /// The leaves that `hasher` makes of a sequence of items, in order.
    pub open spec fn leaf_level<H: Hasher>(hasher: &H, items: Seq<T>) -> Seq<Self> {
        items.map_values(|x: T| Self::leaf(hasher, x))
    }

    /// Every entry of `level` is consistent under `hasher`.
    pub open spec fn all_consistent<H: Hasher>(hasher: &H, level: Seq<Self>) -> bool {
        forall|i: int| 0 <= i < level.len() ==> (#[trigger] level[i]).consistent(hasher)
    }

    /// The tree that `hasher` builds over a sequence of items.
    pub open spec fn tree_of<H: Hasher>(hasher: &H, items: Seq<T>) -> Self {
        Self::combine(hasher, Self::leaf_level(hasher, items))
    }
}

impl<T> NodeView<T> {
    /// Reducing a level pair by pair and taking the root of what results
    /// gives the root of the level itself.
    pub proof fn lemma_combine_pair_up<H: Hasher>(hasher: &H, level: Seq<Self>)
        requires
            is_power_of_two(level.len()),
            level.len() >= 2,
        ensures
            Self::combine(hasher, level) == Self::combine(hasher, Self::pair_up(hasher, level)),
        decreases level.len(),
    {
        let n = level.len() as int;
        let mid = n / 2;
        let next = Self::pair_up(hasher, level);
        let lo = level.subrange(0, mid);
        let hi = level.subrange(mid, n);
        if n == 2 {
            assert(Self::combine(hasher, lo) == level[0]);
            assert(Self::combine(hasher, hi) == level[1]);
            assert(Self::combine(hasher, next) == next[0]);
        } else {
            reveal_with_fuel(is_power_of_two, 2);
            Self::lemma_combine_pair_up(hasher, lo);
            Self::lemma_combine_pair_up(hasher, hi);
            assert(Self::pair_up(hasher, lo) =~= next.subrange(0, mid / 2));
            assert(Self::pair_up(hasher, hi) =~= next.subrange(mid / 2, mid));
        }
    }
}

impl<T: AsBytes> MerkleTree<T> {
    /// Wraps an entry as the root of a tree.
    pub fn new(root: Node<T>) -> (tree: MerkleTree<T>)
        ensures
            tree.root == root,
    {
        MerkleTree { root }
    }

    /// Reduces a level of entries to its root: joins the entries two by
    /// two, in order, into the next level, and again, until one is left.
    ///
    /// Succeeds exactly when the number of entries is a power of two, that
    /// is, when no level on the way holds an odd number of entries, and
    /// none is empty.
    pub fn build_until_root<H: Hasher>(hasher: &H, nodes: Vec<Node<T>>) -> (res: Result<
        Node<T>,
        MerkleError,
    >)
        ensures
            res is Ok <==> is_power_of_two(nodes@.len()),
            res matches Ok(root) ==> root@ == NodeView::combine(hasher, views(nodes@)),
            res matches Ok(root) ==> (NodeView::all_consistent(hasher, views(nodes@))
                ==> root@.consistent(hasher)),
            res matches Err(e) ==> e == MerkleError::MalformedInput,
        decreases nodes@.len(),
    {
        let mut nodes = nodes;
        let ghost level = views(nodes@);
        let ghost sound = NodeView::all_consistent(hasher, level);
        let n = nodes.len();
        if n == 1 {
            let root = nodes.remove(0);
            return Ok(root);
        }
        if n == 0 || n % 2 != 0 {
            return Err(MerkleError::MalformedInput);
        }
        let mut next: Vec<Node<T>> = Vec::new();
        let mut left: Option<Node<T>> = None;
        for entry in it: nodes.into_iter()
            invariant
                it.seq().len() == n,
                views(it.seq()) == level,
                next@.len() == it.index() / 2,
                it.index() % 2 == 0 <==> left is None,
                left matches Some(l) ==> l@ == level[it.index() - 1],
                sound == NodeView::all_consistent(hasher, level),
                sound ==> NodeView::all_consistent(hasher, views(next@)),
                forall|j: int|
                    0 <= j < next@.len() ==> (#[trigger] next@[j])@ == NodeView::join(
                        hasher,
                        level[2 * j],
                        level[2 * j + 1],
                    ),
        {
            match left.take() {
                None => {
                    left = Some(entry);
                },
                Some(l) => {
                    assert(entry@ == level[it.index() as int]);
                    let ghost above = views(next@);
                    let node = Node::Node(MerkleNode::new(hasher, l, entry));
                    let ghost joined = node@;
                    next.push(node);
                    assert(views(next@) =~= above.push(joined));
                },
            }
        }
        proof {
            assert(views(next@) =~= NodeView::pair_up(hasher, level));
            if is_power_of_two(level.len()) {
                NodeView::lemma_combine_pair_up(hasher, level);
            }
        }
        Self::build_until_root(hasher, next)
    }
}

impl<T: AsBytes> MerkleTree<T> {
    /// Builds a tree over `data` with `hasher`: every item becomes a leaf,
    /// in order, and the leaves are reduced to a root.
    ///
    /// Succeeds exactly when the number of items is a power of two. A
    /// single item gives a tree whose root is that item's leaf. No items,
    /// or a number of them that leaves some level odd, is malformed input:
    /// nothing is dropped, duplicated or padded to make it fit.
    pub fn from_vec_with<H: Hasher>(hasher: &H, data: Vec<T>) -> (res: Result<
        MerkleTree<T>,
        MerkleError,
    >)
        ensures
            res is Ok <==> is_power_of_two(data@.len()),
            res matches Ok(tree) ==> tree@ == NodeView::tree_of(hasher, data@),
            res matches Ok(tree) ==> tree@.consistent(hasher),
            res matches Ok(tree) ==> tree@.leaves() == data@,
            res matches Ok(tree) ==> tree@.digest() == root_digest(
                hasher,
                leaf_digests(hasher, data@),
            ),
            res matches Ok(tree) ==> tree@.perfect() && tree@.height() == levels(data@.len()),
            res matches Ok(tree) ==> (data@.len() == 1 ==> tree.root is Leaf && tree@
                == NodeView::leaf(hasher, data@[0])),
            res matches Err(e) ==> e == MerkleError::MalformedInput,
    {
        let ghost items = data@;
        let mut nodes: Vec<Node<T>> = Vec::new();
        for item in it: data.into_iter()
            invariant
                it.seq() == items,
                nodes@.len() == it.index(),
                forall|j: int|
                    0 <= j < nodes@.len() ==> (#[trigger] nodes@[j])@ == NodeView::leaf(
                        hasher,
                        items[j],
                    ),
                NodeView::all_consistent(hasher, views(nodes@)),
        {
            let ghost before = views(nodes@);
            let leaf = Node::Leaf(MerkleLeaf::new(hasher, item));
            let ghost made = leaf@;
            nodes.push(leaf);
            assert(views(nodes@) =~= before.push(made));
        }
        assert(views(nodes@) =~= NodeView::leaf_level(hasher, items));
        match Self::build_until_root(hasher, nodes) {
            Ok(root) => {
                proof {
                    lemma_tree_keeps_items(hasher, items);
                    lemma_tree_root_digest(hasher, items);
                    lemma_tree_is_perfect(hasher, items);
                }
                Ok(MerkleTree { root })
            },
            Err(e) => Err(e),
        }
    }

    /// Builds a tree over `data` with BLAKE2b, as `from_vec_with` does with
    /// a hasher of the caller's choice.
    ///
    /// Succeeds exactly when the number of items is a power of two; no
    /// items at all are malformed input too.
    pub fn from_vec(data: Vec<T>) -> (res: Result<MerkleTree<T>, MerkleError>)
        ensures
            res is Ok <==> is_power_of_two(data@.len()),
            res matches Ok(tree) ==> tree@ == NodeView::tree_of(&Blake2bHasher, data@),
            res matches Ok(tree) ==> tree@.consistent(&Blake2bHasher),
            res matches Ok(tree) ==> tree@.leaves() == data@,
            res matches Ok(tree) ==> tree@.digest() == root_digest(
                &Blake2bHasher,
                leaf_digests(&Blake2bHasher, data@),
            ),
            res matches Ok(tree) ==> tree@.perfect() && tree@.height() == levels(data@.len()),
            res matches Ok(tree) ==> (data@.len() == 1 ==> tree.root is Leaf && tree@
                == NodeView::leaf(&Blake2bHasher, data@[0])),
            res matches Err(e) ==> e == MerkleError::MalformedInput,
    {
        Self::from_vec_with(&Blake2bHasher, data)
    }
}

} // verus!
