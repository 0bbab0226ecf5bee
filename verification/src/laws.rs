//! What holds of every frame.
//!
//! The functions of this crate state what one call does. The proof
//! functions here put these statements together: what the identifiers
//! depend on, what a whole frame makes of the children of one parent, and
//! which nodes live through it.

use crate::container::{resolution, resolved_nodes};
use crate::id::{
    fold_bytes, path_bytes, path_id, pushed_scopes, scope_of, stack_after, ItemID, KEY_END,
};
use crate::layout::{
    lemma_replay_concat, prune_ops, replay, rotate_in_ops, LayoutNode, LayoutOp,
};
use crate::order::{
    declared_ids, frame_ids, lemma_declared_ids, lemma_index_of_unique, lemma_remove_distinct,
    lemma_resolved_ids, lemma_take_distinct, position, resolved_ids, rotate_in,
};
use crate::slider::Slider;
use crate::store::{ids_of, resolve_ops, ItemNode, Resolution};
use vstd::prelude::*;
use vstd::utf8::encode_utf8;

verus! {

/// An identifier depends on the keys along the path alone: pushing `keys`
/// opens the scopes that `path_id` gives for the prefixes of `keys`, whatever
/// else was done before, and whichever frame it is.
pub proof fn law_identifiers_follow_path(stack: Seq<ItemID>, keys: Seq<Seq<char>>)
    ensures
        stack_after(stack, keys) == stack + pushed_scopes(scope_of(stack), keys),
        keys.len() > 0 ==> scope_of(stack_after(stack, keys)) == path_id(scope_of(stack), keys),
    decreases keys.len(),
{
    let scope = scope_of(stack);
    if keys.len() > 0 {
        let front = keys.drop_last();
        law_identifiers_follow_path(stack, front);
        let after = stack_after(stack, keys);
        let want = stack + pushed_scopes(scope, keys);
        assert(keys.take(keys.len() as int) =~= keys);
        assert forall|i: int| 0 <= i < after.len() implies after[i] == want[i] by {
            let k = i - stack.len();
            if 0 <= k < front.len() {
                // a prefix of the keys but the last is a prefix of the keys
                assert(front.take(k + 1) =~= keys.take(k + 1));
            }
        }
    }
}

/// Folding `a + b` into a hash state is folding `a`, then `b`.
proof fn lemma_fold_concat(h: u64, a: Seq<u8>, b: Seq<u8>)
    ensures
        fold_bytes(h, a + b) == fold_bytes(fold_bytes(h, a), b),
    decreases b.len(),
{
    if b.len() == 0 {
        assert(a + b =~= a);
    } else {
        lemma_fold_concat(h, a, b.drop_last());
        assert((a + b).drop_last() =~= a + b.drop_last());
    }
}

/// The identifier of a path is one hash: that of the keys along the path,
/// each with its end mark, folded into the root's identifier.
pub proof fn law_path_is_hashed_whole(root: ItemID, path: Seq<Seq<char>>)
    ensures
        path_id(root, path) == fold_bytes(root, path_bytes(path)),
    decreases path.len(),
{
    if path.len() > 0 {
        law_path_is_hashed_whole(root, path.drop_last());
        let key = encode_utf8(path.last());
        lemma_fold_concat(root, path_bytes(path.drop_last()), key.push(KEY_END));
        assert(key.push(KEY_END).drop_last() =~= key);
    }
}

/// Pushing a key and popping it again leaves the open scopes as they were.
pub proof fn law_push_pop_balanced(stack: Seq<ItemID>, key: Seq<char>)
    ensures
        stack_after(stack, seq![key]).drop_last() == stack,
{
    reveal_with_fuel(stack_after, 2);
}

/// After a frame the children stand in the order in which they were
/// declared in it, and a child that was not declared is gone.
pub proof fn law_frame_order(ids: Seq<ItemID>, declared: Seq<ItemID>)
    requires
        ids.no_duplicates(),
        declared.no_duplicates(),
    ensures
        frame_ids(ids, declared) == declared,
        forall|id: ItemID| !declared.contains(id) ==> !frame_ids(ids, declared).contains(id),
{
    lemma_declared_ids(ids, 0, declared);
}

/// Before the frame ends nothing is lost: while children are declared, the
/// store holds every child that it held and every child that was declared.
pub proof fn law_nothing_lost_before_pruning(ids: Seq<ItemID>, declared: Seq<ItemID>)
    requires
        ids.no_duplicates(),
        declared.no_duplicates(),
    ensures
        declared_ids(ids, 0, declared).no_duplicates(),
        forall|id: ItemID|
            declared_ids(ids, 0, declared).contains(id) <==> (ids.contains(id)
                || declared.contains(id)),
{
    lemma_declared_ids(ids, 0, declared);
}

/// A frame that declares the children of the last frame, in their order,
/// changes nothing: every child is found at the cursor and left there.
pub proof fn law_stable_frame(ids: Seq<ItemID>, k: int)
    requires
        ids.no_duplicates(),
        0 <= k < ids.len(),
    ensures
        frame_ids(ids, ids) == ids,
        declared_ids(ids, 0, ids.take(k)) == ids,
        resolution(ids, k, ids[k]) == Resolution::Reused,
        resolved_ids(ids, k, ids[k]) == ids,
{
    law_frame_order(ids, ids);
    lemma_stable_prefix(ids, 0, k);
}

/// Declaring, from the cursor `c` on, the children that stand from `c` to
/// `k` leaves the order as it is.
proof fn lemma_stable_prefix(ids: Seq<ItemID>, c: int, k: int)
    requires
        ids.no_duplicates(),
        0 <= c <= k <= ids.len(),
    ensures
        declared_ids(ids, c, ids.subrange(c, k)) == ids,
        c == 0 ==> declared_ids(ids, 0, ids.take(k)) == ids,
    decreases k - c,
{
    if c < k {
        assert(ids.subrange(c, k).drop_first() =~= ids.subrange(c + 1, k));
        lemma_stable_prefix(ids, c + 1, k);
    }
}

/// Declaring a child neither destroys nor recreates any other node: the
/// nodes move with their identifiers, every node but the one at the cursor
/// is a node of before, unchanged, and every node of before with another
/// identifier is still there. Only a child whose identifier no node has
/// adds a node.
pub proof fn law_nodes_kept<I, B, L>(
    nodes: Seq<ItemNode<I, B, L>>,
    c: int,
    id: ItemID,
    at_cursor: ItemNode<I, B, L>,
)
    requires
        ids_of(nodes).no_duplicates(),
        0 <= c <= nodes.len(),
        !ids_of(nodes).take(c).contains(id),
        at_cursor.id() == id,
    ensures
        ids_of(resolved_nodes(nodes, c, id, at_cursor)) == resolved_ids(ids_of(nodes), c, id),
        resolved_nodes(nodes, c, id, at_cursor)[c] == at_cursor,
        resolved_nodes(nodes, c, id, at_cursor).len() == if ids_of(nodes).contains(id) {
            nodes.len()
        } else {
            nodes.len() + 1
        },
        forall|k: int|
            0 <= k < resolved_nodes(nodes, c, id, at_cursor).len() && k != c ==> nodes.contains(
                #[trigger] resolved_nodes(nodes, c, id, at_cursor)[k],
            ),
        forall|j: int|
            0 <= j < nodes.len() && (#[trigger] nodes[j]).id() != id ==> resolved_nodes(
                nodes,
                c,
                id,
                at_cursor,
            ).contains(nodes[j]),
        forall|k: int| 0 <= k < c ==> resolved_nodes(nodes, c, id, at_cursor)[k] == nodes[k],
{
    let ids = ids_of(nodes);
    let r = resolved_nodes(nodes, c, id, at_cursor);
    let n = nodes.len() as int;
    lemma_resolved_ids(ids, c, id);
    assert forall|j: int| 0 <= j < n && (#[trigger] nodes[j]).id() != id implies r.contains(
        nodes[j],
    ) by {
        // where the node that stood at `j` stands afterwards
        match position(ids, id) {
            None => {
                assert(r[if j == c { n } else { j }] == nodes[j]);
            },
            Some(from) => {
                if from == c {
                    assert(r[j] == nodes[j]);
                } else {
                    let taken = if j < from { j } else { j - 1 };
                    assert(r[if taken == c { n - 1 } else { taken }] == nodes[j]);
                }
            },
        }
    }
}

/// A child that is declared where it stood, and whose views are not
/// written to, leaves every node where it was and as it was.
pub proof fn law_stable_nodes<I, B, L>(nodes: Seq<ItemNode<I, B, L>>, k: int)
    requires
        ids_of(nodes).no_duplicates(),
        0 <= k < nodes.len(),
    ensures
        resolved_nodes(nodes, k, nodes[k].id(), nodes[k]) == nodes,
{
    lemma_index_of_unique(ids_of(nodes), nodes[k].id(), k);
}

/// A child that was left out of one frame is made anew when it is declared
/// again: the frame that left it out dropped its node, so that no state of
/// it is found.
pub proof fn law_pruned_child_is_made_anew(
    ids: Seq<ItemID>,
    declared: Seq<ItemID>,
    id: ItemID,
    c: int,
)
    requires
        ids.no_duplicates(),
        declared.no_duplicates(),
        !declared.contains(id),
    ensures
        !frame_ids(ids, declared).contains(id),
        resolution(frame_ids(ids, declared), c, id) == Resolution::Created,
{
    law_frame_order(ids, declared);
}

/// Carried out on the children of a layout node, the changes that rotate a
/// new child in give the children with the child rotated in.
proof fn lemma_rotate_in_replay(order: Seq<ItemID>, c: int, a: ItemID)
    requires
        order.no_duplicates(),
        0 <= c <= order.len() <= usize::MAX,
        !order.contains(a),
    ensures
        replay(order, rotate_in_ops(order, c, a)) == rotate_in(order, c, a),
{
    reveal_with_fuel(replay, 4);
    let ops = rotate_in_ops(order, c, a);
    let inserted = order.insert(c, a);
    if c < order.len() && c + 1 != order.len() {
        // the displaced child stands right behind the cursor, and not twice
        assert(ops.drop_last() =~= seq![ops[0], ops[1]]);
        assert(ops.drop_last().drop_last() =~= seq![ops[0]]);
        assert(replay(order, seq![ops[0]]) == inserted);
        lemma_index_of_unique(inserted, order[c], c + 1);
        assert(inserted.remove(c + 1) =~= order.update(c, a));
        assert(order.update(c, a).insert(order.len() as int, order[c]) =~= rotate_in(order, c, a));
    } else {
        assert(ops.drop_last() =~= Seq::<LayoutOp>::empty());
        assert(inserted =~= rotate_in(order, c, a));
    }
}

/// The layout node mirrors the store: carried out on the children of
/// before, the changes that are logged when a child is declared give the
/// children as the store has them afterwards.
pub proof fn law_layout_mirrors_declaration(ids: Seq<ItemID>, c: int, id: ItemID)
    requires
        ids.no_duplicates(),
        0 <= c <= ids.len() <= usize::MAX,
        !ids.take(c).contains(id),
    ensures
        replay(ids, resolve_ops(ids, c, id)) == resolved_ids(ids, c, id),
{
    lemma_resolved_ids(ids, c, id);
    match position(ids, id) {
        None => {
            lemma_rotate_in_replay(ids, c, id);
        },
        Some(j) => {
            if j != c {
                let out = ids.remove(j);
                let first = seq![LayoutOp::Remove { child: id }];
                lemma_index_of_unique(ids, id, j);
                lemma_remove_distinct(ids, j);
                assert(replay(ids, first) == out) by {
                    reveal_with_fuel(replay, 2);
                    assert(first.drop_last() =~= Seq::<LayoutOp>::empty());
                }
                lemma_replay_concat(ids, first, rotate_in_ops(out, c, id));
                lemma_rotate_in_replay(out, c, id);
            }
        },
    }
}

/// The layout node mirrors the store at the end of a frame: carried out on
/// the children of before, the changes that are logged when the children
/// from position `len` on are pruned give the first `len` children.
pub proof fn law_layout_mirrors_pruning(ids: Seq<ItemID>, len: int)
    requires
        ids.no_duplicates(),
        0 <= len <= ids.len(),
    ensures
        replay(ids, prune_ops(ids, len)) == ids.take(len),
    decreases ids.len() - len,
{
    if len == ids.len() {
        assert(ids.take(len) =~= ids);
    } else {
        law_layout_mirrors_pruning(ids, len + 1);
        let ops = prune_ops(ids, len);
        assert(ops.drop_last() =~= prune_ops(ids, len + 1));
        lemma_take_distinct(ids, len + 1);
        lemma_index_of_unique(ids.take(len + 1), ids[len], len);
        assert(ids.take(len + 1).remove(len) =~= ids.take(len));
    }
}

/// The changes that are logged for a layout node add up: if the log of
/// `mid` leads from `first` to `mid`, and the log of `last` leads from `mid`
/// to `last`, then the log of `last` leads from `first` to `last`. So the
/// changes of a whole frame, replayed on the children of before, give the
/// children of after.
pub proof fn law_layout_changes_add_up<L>(
    first: LayoutNode<L>,
    mid: LayoutNode<L>,
    last: LayoutNode<L>,
)
    requires
        mid.follows(first),
        last.follows(mid),
    ensures
        last.follows(first),
{
    let a = first.pending().len() as int;
    let b = mid.pending().len() as int;
    assert(last.pending().skip(a) =~= mid.pending().skip(a) + last.pending().skip(b));
    lemma_replay_concat(first@, mid.pending().skip(a), last.pending().skip(b));
}

/// A value that the slider set goes out to the application at the next
/// `sync`, and a value that the application set is taken in by a `sync`
/// that no change of the slider came before.
pub proof fn law_slider_round_trip<T>(slider: Slider<T>, dragged: T, bound: T, changed: T)
    ensures
        slider.with_value(dragged).synced(bound).1 == dragged,
        !slider.with_value(dragged).synced(bound).0.dirty,
        slider.with_value(dragged).synced(bound).0.value == dragged,
        slider.with_value(dragged).synced(bound).0.synced(changed).0.value == changed,
        slider.with_value(dragged).synced(bound).0.synced(changed).1 == changed,
{
}

} // verus!
