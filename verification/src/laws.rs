//! What holds of every tree that this library builds.
use vstd::prelude::*;
use vstd::arithmetic::power::lemma_pow0;
use vstd::arithmetic::power2::{lemma_pow2_unfold, pow2};
use vstd::std_specs::cmp::PartialEqSpec;
use crate::bytes::AsBytes;
use crate::construct::{is_power_of_two, leaf_digests, levels, root_digest};
use crate::hasher::Hasher;
use crate::tree::{MerkleTree, NodeView};

verus! {

/// A tree over a single item is that item's leaf: no branch is made.
pub proof fn lemma_single_item_is_leaf<T: AsBytes, H: Hasher>(hasher: &H, item: T)
    ensures
        NodeView::tree_of(hasher, seq![item]) == NodeView::leaf(hasher, item),
        NodeView::tree_of(hasher, seq![item]).digest() == hasher.digest(item.bytes()),
{
}

/// A tree over two or more items is the branch over the tree of the first
/// half of the items and the tree of the second half.
pub proof fn lemma_tree_splits_in_halves<T: AsBytes, H: Hasher>(hasher: &H, items: Seq<T>)
    requires
        items.len() >= 2,
    ensures
        NodeView::tree_of(hasher, items) == NodeView::join(
            hasher,
            NodeView::tree_of(hasher, items.subrange(0, items.len() as int / 2)),
            NodeView::tree_of(hasher, items.subrange(items.len() as int / 2, items.len() as int)),
        ),
{
    let n = items.len() as int;
    let level = NodeView::leaf_level(hasher, items);
    assert(level.subrange(0, n / 2) =~= NodeView::leaf_level(hasher, items.subrange(0, n / 2)));
    assert(level.subrange(n / 2, n) =~= NodeView::leaf_level(hasher, items.subrange(n / 2, n)));
}

/// The leaves of a tree are the items it was built over, in their order.
pub proof fn lemma_tree_keeps_items<T: AsBytes, H: Hasher>(hasher: &H, items: Seq<T>)
    requires
        items.len() >= 1,
    ensures
        NodeView::tree_of(hasher, items).leaves() == items,
    decreases items.len(),
{
    let n = items.len() as int;
    if n == 1 {
        assert(NodeView::tree_of(hasher, items).leaves() =~= items);
    } else {
        lemma_tree_splits_in_halves(hasher, items);
        lemma_tree_keeps_items(hasher, items.subrange(0, n / 2));
        lemma_tree_keeps_items(hasher, items.subrange(n / 2, n));
        assert(items.subrange(0, n / 2) + items.subrange(n / 2, n) =~= items);
    }
}

/// The root digest of a tree is the root digest over the digests of its
/// items.
pub proof fn lemma_tree_root_digest<T: AsBytes, H: Hasher>(hasher: &H, items: Seq<T>)
    requires
        items.len() >= 1,
    ensures
        NodeView::tree_of(hasher, items).digest() == root_digest(
            hasher,
            leaf_digests(hasher, items),
        ),
    decreases items.len(),
{
    let n = items.len() as int;
    let digests = leaf_digests(hasher, items);
    if n >= 2 {
        lemma_tree_splits_in_halves(hasher, items);
        lemma_tree_root_digest(hasher, items.subrange(0, n / 2));
        lemma_tree_root_digest(hasher, items.subrange(n / 2, n));
        assert(digests.subrange(0, n / 2) =~= leaf_digests(hasher, items.subrange(0, n / 2)));
        assert(digests.subrange(n / 2, n) =~= leaf_digests(hasher, items.subrange(n / 2, n)));
    }
}

/// A tree over a power of two of items is perfect, and as high as its
/// first level is often halved.
pub proof fn lemma_tree_is_perfect<T: AsBytes, H: Hasher>(hasher: &H, items: Seq<T>)
    requires
        is_power_of_two(items.len()),
    ensures
        NodeView::tree_of(hasher, items).perfect(),
        NodeView::tree_of(hasher, items).height() == levels(items.len()),
    decreases items.len(),
{
    let n = items.len() as int;
    if n >= 2 {
        lemma_tree_splits_in_halves(hasher, items);
        lemma_tree_is_perfect(hasher, items.subrange(0, n / 2));
        lemma_tree_is_perfect(hasher, items.subrange(n / 2, n));
    }
}

/// A level of a power of two of entries is two to the number of its
/// halvings long.
pub proof fn lemma_levels_is_logarithm(n: nat)
    requires
        is_power_of_two(n),
    ensures
        pow2(levels(n)) == n,
    decreases n,
{
    if n == 1 {
        lemma_pow0(2);
    } else {
        lemma_levels_is_logarithm(n / 2);
        lemma_pow2_unfold(levels(n));
    }
}

/// The bytes of a sequence of items, in order.
pub open spec fn byte_seqs<T: AsBytes>(items: Seq<T>) -> Seq<Seq<u8>> {
    items.map_values(|x: T| x.bytes())
}

/// Two different byte sequences exist to which `hasher` gives one digest.
pub open spec fn has_collision<H: Hasher>(hasher: &H) -> bool {
    exists|x: Seq<u8>, y: Seq<u8>|
        x != y && #[trigger] hasher.digest(x) == #[trigger] hasher.digest(y)
}

/// The digest of a consistent entry has the length of the hasher's digests.
pub proof fn lemma_consistent_digest_len<T: AsBytes, H: Hasher>(hasher: &H, entry: NodeView<T>)
    requires
        entry.consistent(hasher),
    ensures
        entry.digest().len() == hasher.digest_len(),
{
}

/// Two consistent, perfect entries of one height with one digest hold
/// items of the same bytes, or else the hasher has a collision.
pub proof fn lemma_digest_binds_items<T: AsBytes, H: Hasher>(
    hasher: &H,
    a: NodeView<T>,
    b: NodeView<T>,
)
    requires
        a.consistent(hasher),
        b.consistent(hasher),
        a.perfect(),
        b.perfect(),
        a.height() == b.height(),
        a.digest() == b.digest(),
    ensures
        byte_seqs(a.leaves()) == byte_seqs(b.leaves()) || has_collision(hasher),
    decreases a,
{
    match (a, b) {
        (NodeView::Leaf { data: x, .. }, NodeView::Leaf { data: y, .. }) => {
            if x.bytes() == y.bytes() {
                assert(byte_seqs(a.leaves()) =~= byte_seqs(b.leaves()));
            } else {
                assert(hasher.digest(x.bytes()) == hasher.digest(y.bytes()));
            }
        },
        (
            NodeView::Node { left: al, right: ar, .. },
            NodeView::Node { left: bl, right: br, .. },
        ) => {
            let below_a = al.digest() + ar.digest();
            let below_b = bl.digest() + br.digest();
            if below_a == below_b {
                lemma_consistent_digest_len(hasher, *al);
                lemma_consistent_digest_len(hasher, *bl);
                assert(al.digest() =~= below_a.subrange(0, al.digest().len() as int));
                assert(bl.digest() =~= below_b.subrange(0, bl.digest().len() as int));
                assert(ar.digest() =~= below_a.subrange(
                    al.digest().len() as int,
                    below_a.len() as int,
                ));
                assert(br.digest() =~= below_b.subrange(
                    bl.digest().len() as int,
                    below_b.len() as int,
                ));
                lemma_digest_binds_items(hasher, *al, *bl);
                lemma_digest_binds_items(hasher, *ar, *br);
                if !has_collision(hasher) {
                    assert(byte_seqs(a.leaves()) =~= byte_seqs(al.leaves()) + byte_seqs(
                        ar.leaves(),
                    ));
                    assert(byte_seqs(b.leaves()) =~= byte_seqs(bl.leaves()) + byte_seqs(
                        br.leaves(),
                    ));
                }
            } else {
                assert(hasher.digest(below_a) == hasher.digest(below_b));
            }
        },
        _ => {},
    }
}

/// The order of the children matters: if joining two consistent entries
/// of different digests gives one digest either way round, the hasher has
/// a collision.
pub proof fn lemma_swapped_children_collide<T: AsBytes, H: Hasher>(
    hasher: &H,
    left: NodeView<T>,
    right: NodeView<T>,
)
    requires
        left.consistent(hasher),
        right.consistent(hasher),
        left.digest() != right.digest(),
        NodeView::join(hasher, left, right).digest() == NodeView::join(
            hasher,
            right,
            left,
        ).digest(),
    ensures
        has_collision(hasher),
{
    let one_way = left.digest() + right.digest();
    let other_way = right.digest() + left.digest();
    lemma_consistent_digest_len(hasher, left);
    lemma_consistent_digest_len(hasher, right);
    if one_way == other_way {
        assert(left.digest() =~= one_way.subrange(0, left.digest().len() as int));
        assert(right.digest() =~= other_way.subrange(0, right.digest().len() as int));
    }
    assert(hasher.digest(one_way) == hasher.digest(other_way));
}

/// Two equal trees over as many items hold items of the same bytes, or
/// else the hasher has a collision: short of one, changing a single item
/// changes the tree.
pub proof fn lemma_equal_trees_same_items<T: AsBytes, H: Hasher>(
    hasher: &H,
    xs: Seq<T>,
    ys: Seq<T>,
    first: MerkleTree<T>,
    second: MerkleTree<T>,
)
    requires
        is_power_of_two(xs.len()),
        xs.len() == ys.len(),
        first@ == NodeView::tree_of(hasher, xs),
        second@ == NodeView::tree_of(hasher, ys),
        first@.consistent(hasher),
        second@.consistent(hasher),
        first.eq_spec(&second),
    ensures
        byte_seqs(xs) == byte_seqs(ys) || has_collision(hasher),
{
    lemma_tree_is_perfect(hasher, xs);
    lemma_tree_is_perfect(hasher, ys);
    lemma_tree_keeps_items(hasher, xs);
    lemma_tree_keeps_items(hasher, ys);
    lemma_digest_binds_items(hasher, first@, second@);
}

/// Two trees built over the same items with the same hasher are equal.
pub proof fn lemma_same_items_equal_trees<T: AsBytes, H: Hasher>(
    hasher: &H,
    items: Seq<T>,
    first: MerkleTree<T>,
    second: MerkleTree<T>,
)
    requires
        first@ == NodeView::tree_of(hasher, items),
        second@ == NodeView::tree_of(hasher, items),
    ensures
        first.eq_spec(&second),
        first@ == second@,
{
}

/// Equality looks at the root digests alone: trees with the same root
/// digest are equal whatever items they hold.
pub proof fn lemma_equality_is_by_root_digest<T>(first: MerkleTree<T>, second: MerkleTree<T>)
    ensures
        first.eq_spec(&second) <==> first.root@.digest() == second.root@.digest(),
        first@.digest() == second@.digest() && first@.leaves() != second@.leaves()
            ==> first.eq_spec(&second),
{
}

/// Equality of trees is reflexive, symmetric and transitive.
pub proof fn lemma_equality_is_equivalence<T>(a: MerkleTree<T>, b: MerkleTree<T>, c: MerkleTree<T>)
    ensures
        a.eq_spec(&a),
        a.eq_spec(&b) ==> b.eq_spec(&a),
        a.eq_spec(&b) && b.eq_spec(&c) ==> a.eq_spec(&c),
{
}

} // verus!
