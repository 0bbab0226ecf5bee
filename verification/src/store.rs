//! Item nodes and the ordered, key-unique store of one parent's children.

use crate::id::ItemID;
use crate::index::{
    index_insert, index_keys, index_new, index_position, index_shift_remove, index_swap_remove,
    index_truncate,
};
use crate::layout::{prune_ops, rotate_in_ops, LayoutNode, LayoutOp};
use crate::order::{
    lemma_index_of_unique, lemma_take_distinct, move_to, position, resolved_ids, rotate_in,
};
use indexmap::IndexSet;
use std::hash::RandomState;
use vstd::prelude::*;

verus! {

/// Tag of a behavior's concrete type.
pub type BehaviorKind = u64;

/// A behavior whose concrete type is known by its tag alone.
///
/// The state is reached through `downcast_ref` and `downcast_mut`, which hand
/// it out only to a caller that names the tag it was stored with.
pub struct BehaviorAny<B> {
    kind: BehaviorKind,
    state: B,
}

impl<B> BehaviorAny<B> {
    /// The tag of the concrete type.
    pub closed spec fn kind(&self) -> BehaviorKind {
        self.kind
    }

    /// The state of the behavior.
    pub closed spec fn state(&self) -> B {
        self.state
    }

    /// A behavior of type `kind` with the given state.
    pub fn new(kind: BehaviorKind, state: B) -> (b: Self)
        ensures
            b.kind() == kind,
            b.state() == state,
    {
        BehaviorAny { kind, state }
    }

    /// The tag of the concrete type.
    pub fn kind_of(&self) -> (kind: BehaviorKind)
        ensures
            kind == self.kind(),
    {
        self.kind
    }

    /// The state, where `kind` is the tag it was stored with.
    pub fn downcast_ref(&self, kind: BehaviorKind) -> (state: Option<&B>)
        ensures
            state.is_some() == (kind == self.kind()),
            state.is_some() ==> *state.unwrap() == self.state(),
    {
        if self.kind == kind {
            Some(&self.state)
        } else {
            None
        }
    }

    /// The state, for writing, where `kind` is the tag it was stored with.
    /// The tag stays whatever is written.
    pub fn downcast_mut(&mut self, kind: BehaviorKind) -> (state: Option<&mut B>)
        ensures
            state.is_some() == (kind == old(self).kind()),
            final(self).kind() == old(self).kind(),
            match state {
                Some(s) => *s == old(self).state() && final(self).state() == *final(s),
                None => final(self).state() == old(self).state(),
            },
    {
        if self.kind == kind {
            Some(&mut self.state)
        } else {
            None
        }
    }

    /// Takes the behavior apart.
    pub fn into_parts(self) -> (parts: (BehaviorKind, B))
        ensures
            parts.0 == self.kind(),
            parts.1 == self.state(),
    {
        (self.kind, self.state)
    }
}

/// What matching a declared child against the store came to.
#[derive(Clone, Copy, Debug, PartialEq, Eq, Structural)]
pub enum Resolution {
    /// No node had the identifier: a new node was made.
    Created,
    /// The node stood elsewhere and was moved to the cursor.
    Moved,
    /// The node stood at the cursor and was left there.
    Reused,
}

/// One persistent item: its record, its behavior, its children and its
/// layout counterpart.
pub struct ItemNode<I, B, L> {
    id: ItemID,
    item: I,
    behavior: BehaviorAny<B>,
    children: NodeStore<I, B, L>,
    layout: LayoutNode<L>,
}

/// The children of one parent: nodes in the order in which they were last
/// declared, no two with the same identifier.
pub struct NodeStore<I, B, L> {
    index: IndexSet<u64, RandomState>,
    nodes: Vec<ItemNode<I, B, L>>,
}

/// The identifiers of `nodes`, in their order.
pub open spec fn ids_of<I, B, L>(nodes: Seq<ItemNode<I, B, L>>) -> Seq<ItemID> {
    nodes.map_values(|n: ItemNode<I, B, L>| n.id())
}

impl<I, B, L> ItemNode<I, B, L> {
    /// The identifier of the item.
    pub closed spec fn id(&self) -> ItemID {
        self.id
    }

    /// The item record.
    pub closed spec fn item(&self) -> I {
        self.item
    }

    /// The behavior.
    pub closed spec fn behavior(&self) -> BehaviorAny<B> {
        self.behavior
    }

    /// The children.
    pub closed spec fn children(&self) -> NodeStore<I, B, L> {
        self.children
    }

    /// The layout counterpart.
    pub closed spec fn layout(&self) -> LayoutNode<L> {
        self.layout
    }

    /// The subtree is well formed, and the layout node of every node in it
    /// has the node's children in their order.
    pub open spec fn wf(&self) -> bool
        decreases self, 0int,
    {
        &&& self.children().wf()
        &&& self.layout()@ == self.children().ids()
    }

    /// The identifier of the item.
    pub fn item_id(&self) -> (id: ItemID)
        ensures
            id == self.id(),
    {
        self.id
    }

    /// The item record.
    pub fn item_ref(&self) -> (item: &I)
        ensures
            *item == self.item(),
    {
        &self.item
    }

    /// The behavior.
    pub fn behavior_ref(&self) -> (behavior: &BehaviorAny<B>)
        ensures
            *behavior == self.behavior(),
    {
        &self.behavior
    }

    /// The children.
    pub fn children_ref(&self) -> (children: &NodeStore<I, B, L>)
        ensures
            *children == self.children(),
    {
        &self.children
    }

    /// The layout counterpart.
    pub fn layout_ref(&self) -> (layout: &LayoutNode<L>)
        ensures
            *layout == self.layout(),
    {
        &self.layout
    }

    /// Takes the node apart into references to its four components, for
    /// writing. No two of them overlap, and the identifier stays.
    pub fn parts(&mut self) -> (parts: (
        &mut NodeStore<I, B, L>,
        &mut LayoutNode<L>,
        &mut I,
        &mut BehaviorAny<B>,
    ))
        ensures
            *parts.0 == old(self).children(),
            *parts.1 == old(self).layout(),
            *parts.2 == old(self).item(),
            *parts.3 == old(self).behavior(),
            final(self).id() == old(self).id(),
            final(self).children() == *final(parts.0),
            final(self).layout() == *final(parts.1),
            final(self).item() == *final(parts.2),
            final(self).behavior() == *final(parts.3),
    {
        (&mut self.children, &mut self.layout, &mut self.item, &mut self.behavior)
    }
}

impl<I: Default, B, L: Default> ItemNode<I, B, L> {
    /// A node without children, with an item record of default values.
    pub fn new(id: ItemID, behavior: BehaviorAny<B>) -> (node: Self)
        ensures
            node.id() == id,
            node.behavior() == behavior,
            call_ensures(I::default, (), node.item()),
            node.children()@.len() == 0,
            node.layout()@.len() == 0,
            node.layout().pending().len() == 0,
            call_ensures(L::default, (), node.layout().handle()),
            node.wf(),
    {
        let children = NodeStore::new();
        let node = ItemNode {
            id,
            item: I::default(),
            behavior,
            children,
            layout: LayoutNode::new(L::default()),
        };
        proof {
            assert(node.children().ids() =~= Seq::<ItemID>::empty());
        }
        node
    }
}

impl<I, B, L> View for NodeStore<I, B, L> {
    type V = Seq<ItemNode<I, B, L>>;

    /// The nodes, in their order.
    closed spec fn view(&self) -> Seq<ItemNode<I, B, L>> {
        self.nodes@
    }
}

impl<I, B, L> NodeStore<I, B, L> {
    /// The identifiers of the nodes, in their order.
    pub open spec fn ids(&self) -> Seq<ItemID> {
        ids_of(self@)
    }

    /// The identifier index holds the identifiers of the nodes, in their
    /// order.
    pub closed spec fn indexed(&self) -> bool {
        index_keys(self.index) == ids_of(self.nodes@)
    }

    /// The index agrees with the nodes, no identifier occurs twice, and
    /// every node is well formed.
    pub open spec fn wf(&self) -> bool
        decreases self, 1int,
    {
        &&& self.indexed()
        &&& self.ids().no_duplicates()
        &&& forall|i: int| 0 <= i < self@.len() ==> (#[trigger] self@[i]).wf()
    }

    /// A store without nodes.
    pub fn new() -> (store: Self)
        ensures
            store@ == Seq::<ItemNode<I, B, L>>::empty(),
            store.wf(),
    {
        let store = NodeStore { index: index_new(), nodes: Vec::new() };
        proof {
            assert(ids_of(store.nodes@) =~= Seq::<ItemID>::empty());
        }
        store
    }

    /// Number of nodes.
    pub fn len(&self) -> (n: usize)
        ensures
            n == self@.len(),
    {
        self.nodes.len()
    }

    /// The node at position `index`.
    pub fn get(&self, index: usize) -> (node: Option<&ItemNode<I, B, L>>)
        ensures
            match node {
                Some(n) => index < self@.len() && *n == self@[index as int],
                None => index >= self@.len(),
            },
    {
        if index < self.nodes.len() {
            Some(&self.nodes[index])
        } else {
            None
        }
    }

    /// The identifiers of the nodes, in their order.
    pub fn item_ids(&self) -> (ids: Vec<ItemID>)
        ensures
            ids@ == self.ids(),
    {
        let mut ids: Vec<ItemID> = Vec::new();
        let mut i: usize = 0;
        while i < self.nodes.len()
            invariant
                i <= self.nodes.len(),
                ids@ == ids_of(self.nodes@.take(i as int)),
            decreases self.nodes.len() - i,
        {
            proof {
                assert(ids_of(self.nodes@.take(i + 1)) =~= ids_of(self.nodes@.take(i as int)).push(
                    self.nodes@[i as int].id(),
                ));
            }
            ids.push(self.nodes[i].id);
            i += 1;
        }
        ids
    }

    /// The position of the node with identifier `id`.
    pub fn position_of(&self, id: ItemID) -> (pos: Option<usize>)
        requires
            self.wf(),
        ensures
            match pos {
                Some(i) => position(self.ids(), id) == Some(i as int) && i < self@.len(),
                None => position(self.ids(), id).is_none(),
            },
    {
        index_position(&self.index, id)
    }
}

/// `node` is a newly made node for `id` with the behavior `behavior`: its
/// item record has default values, and it has no children.
pub open spec fn is_fresh<I: Default, B, L: Default>(
    node: ItemNode<I, B, L>,
    id: ItemID,
    behavior: BehaviorAny<B>,
) -> bool {
    &&& node.id() == id
    &&& node.behavior() == behavior
    &&& call_ensures(I::default, (), node.item())
    &&& node.children()@.len() == 0
    &&& node.layout()@.len() == 0
    &&& call_ensures(L::default, (), node.layout().handle())
}

/// The changes of the layout node that go with declaring the child `id` at
/// cursor `c`: none where it stands there, its removal and what rotates it
/// in where it stands elsewhere, and what rotates it in where it is new.
pub open spec fn resolve_ops(ids: Seq<ItemID>, c: int, id: ItemID) -> Seq<LayoutOp> {
    match position(ids, id) {
        None => rotate_in_ops(ids, c, id),
        Some(j) => if j == c {
            Seq::empty()
        } else {
            seq![LayoutOp::Remove { child: id }] + rotate_in_ops(ids.remove(j), c, id)
        },
    }
}

/// Taking the identifiers commutes with rotating a node in.
pub proof fn lemma_ids_rotate_in<I, B, L>(s: Seq<ItemNode<I, B, L>>, c: int, node: ItemNode<I, B, L>)
    ensures
        ids_of(rotate_in(s, c, node)) == rotate_in(ids_of(s), c, node.id()),
{
}

/// Taking the identifiers commutes with taking a node out.
pub proof fn lemma_ids_remove<I, B, L>(s: Seq<ItemNode<I, B, L>>, j: int)
    requires
        0 <= j < s.len(),
    ensures
        ids_of(s.remove(j)) == ids_of(s).remove(j),
{
}

/// Taking the identifiers commutes with keeping the first `n` nodes.
pub proof fn lemma_ids_take<I, B, L>(s: Seq<ItemNode<I, B, L>>, n: int)
    requires
        0 <= n <= s.len(),
    ensures
        ids_of(s.take(n)) == ids_of(s).take(n),
{
}

impl<I, B, L> NodeStore<I, B, L> {
    /// Takes the node at position `j` out of the store and out of the
    /// layout node; the nodes behind it move up by one.
    fn take_out(&mut self, layout: &mut LayoutNode<L>, j: usize) -> (node: ItemNode<I, B, L>)
        requires
            old(self).wf(),
            old(layout)@ == old(self).ids(),
            j < old(self)@.len(),
        ensures
            node == old(self)@[j as int],
            final(self)@ == old(self)@.remove(j as int),
            final(self).wf(),
            final(layout)@ == final(self).ids(),
            final(layout).handle() == old(layout).handle(),
            final(layout).pending() == old(layout).pending().push(
                (LayoutOp::Remove { child: old(self)@[j as int].id() }),
            ),
            forall|before: LayoutNode<L>| old(layout).follows(before) ==> final(layout).follows(before),
    {
        let ghost ids = self.ids();
        proof {
            lemma_index_of_unique(ids, ids[j as int], j as int);
            lemma_ids_remove(self@, j as int);
        }
        let id: ItemID = self.nodes[j].id;
        layout.remove_child(id);
        index_shift_remove(&mut self.index, j);
        let node = self.nodes.remove(j);
        node
    }

    /// Puts `node` at position `cursor`; the node that stood there stands
    /// last afterwards. The layout node is changed alike.
    fn rotate_node_in(&mut self, layout: &mut LayoutNode<L>, cursor: usize, node: ItemNode<I, B, L>)
        requires
            old(self).wf(),
            old(layout)@ == old(self).ids(),
            cursor <= old(self)@.len(),
            !old(self).ids().contains(node.id()),
            node.wf(),
        ensures
            final(self)@ == rotate_in(old(self)@, cursor as int, node),
            final(self).wf(),
            final(layout)@ == final(self).ids(),
            final(layout).handle() == old(layout).handle(),
            final(layout).pending() == old(layout).pending() + rotate_in_ops(
                old(self).ids(),
                cursor as int,
                node.id(),
            ),
            forall|before: LayoutNode<L>| old(layout).follows(before) ==> final(layout).follows(before),
    {
        let ghost s1 = self@;
        let ghost k1 = self.ids();
        let ghost log = layout.pending();
        let id: ItemID = node.id;
        proof {
            lemma_ids_rotate_in(s1, cursor as int, node);
        }
        layout.insert_child(id, cursor);
        let len: usize = self.nodes.len();
        index_insert(&mut self.index, id);
        self.nodes.push(node);
        if cursor != len {
            let ghost xid = k1[cursor as int];
            index_swap_remove(&mut self.index, cursor);
            let displaced = self.nodes.swap_remove(cursor);
            let moved: ItemID = displaced.id;
            proof {
                // the displaced child stood at the cursor and nowhere else
                let u = k1.update(cursor as int, id);
                assert(!u.contains(xid)) by {
                    if u.contains(xid) {
                        assert(k1[u.index_of(xid)] == xid);
                    }
                }
            }
            index_insert(&mut self.index, moved);
            self.nodes.push(displaced);
            if cursor + 1 != len {
                proof {
                    // in the layout node it stands right behind the cursor
                    lemma_index_of_unique(k1.insert(cursor as int, id), xid, cursor + 1);
                }
                layout.remove_child(moved);
                layout.insert_child(moved, len);
            }
            proof {
                assert(self.nodes@ =~= rotate_in(s1, cursor as int, node));
                assert(index_keys(self.index) =~= rotate_in(k1, cursor as int, id));
            }
        }
        proof {
            let r = rotate_in(s1, cursor as int, node);
            assert forall|i: int| 0 <= i < r.len() implies (#[trigger] r[i]).wf() by {}
        }
    }
}

impl<I, B, L> NodeStore<I, B, L> {
    /// Takes the node at position `index` apart into references to its
    /// children, its layout node, its item record and its behavior, for
    /// writing. No two of them overlap. All other nodes, the order and the
    /// node's identifier stay as they are.
    pub fn views(&mut self, index: usize) -> (parts: (
        &mut NodeStore<I, B, L>,
        &mut LayoutNode<L>,
        &mut I,
        &mut BehaviorAny<B>,
    ))
        requires
            old(self).wf(),
            index < old(self)@.len(),
        ensures
            *parts.0 == old(self)@[index as int].children(),
            *parts.1 == old(self)@[index as int].layout(),
            *parts.2 == old(self)@[index as int].item(),
            *parts.3 == old(self)@[index as int].behavior(),
            parts.0.wf(),
            parts.1@ == parts.0.ids(),
            final(self)@.len() == old(self)@.len(),
            forall|k: int|
                0 <= k < old(self)@.len() && k != index ==> final(self)@[k] == old(self)@[k],
            final(self)@[index as int].id() == old(self)@[index as int].id(),
            final(self)@[index as int].children() == *final(parts.0),
            final(self)@[index as int].layout() == *final(parts.1),
            final(self)@[index as int].item() == *final(parts.2),
            final(self)@[index as int].behavior() == *final(parts.3),
            final(self).ids() == old(self).ids(),
            final(parts.0).wf() && final(parts.1)@ == final(parts.0).ids() ==> final(self).wf(),
    {
        let ghost before = self@;
        proof {
            // whatever is written to the node, the identifiers stay, and the
            // nodes are well formed if the node is
            assert forall|n: ItemNode<I, B, L>| n.id() == before[index as int].id() implies ids_of(
                #[trigger] before.update(index as int, n),
            ) == ids_of(before) by {}
            assert forall|n: ItemNode<I, B, L>, i: int|
                n.wf() && 0 <= i < before.len() implies (#[trigger] before.update(
                index as int,
                n,
            )[i]).wf() by {}
        }
        let node = &mut self.nodes[index];
        node.parts()
    }

    /// Drops the nodes from position `len` on, with their subtrees, and
    /// detaches their layout nodes, last first.
    pub fn prune(&mut self, layout: &mut LayoutNode<L>, len: usize)
        requires
            old(self).wf(),
            old(layout)@ == old(self).ids(),
            len <= old(self)@.len(),
        ensures
            final(self)@ == old(self)@.take(len as int),
            final(self).wf(),
            final(layout)@ == final(self).ids(),
            final(layout).handle() == old(layout).handle(),
            final(layout).follows(*old(layout)),
            final(layout).pending() == old(layout).pending() + prune_ops(
                old(self).ids(),
                len as int,
            ),
    {
        let ghost s0 = self@;
        let ghost k0 = self.ids();
        let ghost log = layout.pending();
        proof {
            assert(layout.follows(*layout));
        }
        let mut n: usize = self.nodes.len();
        while n > len
            invariant
                len <= n <= s0.len(),
                self@ == s0,
                k0 == ids_of(s0),
                k0.no_duplicates(),
                layout@ == k0.take(n as int),
                layout.handle() == old(layout).handle(),
                layout.follows(*old(layout)),
                layout.pending() == log + prune_ops(k0, n as int),
            decreases n,
        {
            let id: ItemID = self.nodes[n - 1].id;
            proof {
                let l = k0.take(n as int);
                lemma_take_distinct(k0, n as int);
                lemma_index_of_unique(l, id, n - 1);
                assert((log + prune_ops(k0, n as int)).push((LayoutOp::Remove { child: id })) =~= log
                    + prune_ops(k0, n - 1));
            }
            layout.remove_child(id);
            n -= 1;
        }
        index_truncate(&mut self.index, len);
        self.nodes.truncate(len);
        proof {
            lemma_ids_take(s0, len as int);
            lemma_take_distinct(k0, len as int);
            let t = s0.take(len as int);
            assert forall|i: int| 0 <= i < t.len() implies (#[trigger] t[i]).wf() by {}
        }
    }
}

impl<I: Default, B, L: Default> NodeStore<I, B, L> {
    /// Matches the child `id`, declared at position `cursor`, against the
    /// store.
    ///
    /// A node that stands at `cursor` is left there. A node that stands
    /// elsewhere is moved to `cursor`, and a missing node is made, with the
    /// behavior `init`, and put at `cursor`; in both cases the node that
    /// stood at `cursor` stands last afterwards, and all others keep their
    /// order. The layout node is changed alike. `init` is dropped where the
    /// node exists.
    pub fn resolve(
        &mut self,
        layout: &mut LayoutNode<L>,
        cursor: usize,
        id: ItemID,
        init: BehaviorAny<B>,
    ) -> (how: Resolution)
        requires
            old(self).wf(),
            old(layout)@ == old(self).ids(),
            cursor <= old(self)@.len(),
            !old(self).ids().take(cursor as int).contains(id),
        ensures
            final(self).wf(),
            final(layout)@ == final(self).ids(),
            final(layout).handle() == old(layout).handle(),
            final(layout).follows(*old(layout)),
            final(layout).pending() == old(layout).pending() + resolve_ops(
                old(self).ids(),
                cursor as int,
                id,
            ),
            final(self).ids() == resolved_ids(old(self).ids(), cursor as int, id),
            cursor < final(self)@.len() <= usize::MAX,
            final(self)@[cursor as int].id() == id,
            final(self).ids().take(cursor as int) == old(self).ids().take(cursor as int),
            match position(old(self).ids(), id) {
                None => {
                    &&& how == Resolution::Created
                    &&& is_fresh(final(self)@[cursor as int], id, init)
                    &&& final(self)@ == rotate_in(
                        old(self)@,
                        cursor as int,
                        final(self)@[cursor as int],
                    )
                },
                Some(j) => if j == cursor {
                    &&& how == Resolution::Reused
                    &&& final(self)@ == old(self)@
                } else {
                    &&& how == Resolution::Moved
                    &&& cursor < j < old(self)@.len()
                    &&& final(self)@ == move_to(old(self)@, j, cursor as int)
                },
            },
    {
        let ghost s0 = self@;
        let ghost k0 = self.ids();
        let _bounded: usize = self.nodes.len();
        let found = self.position_of(id);
        let node = match found {
            None => ItemNode::new(id, init),
            Some(j) => {
                if j == cursor {
                    return Resolution::Reused;
                }
                proof {
                    if j < cursor {
                        // then it would be among the children declared
                        assert(k0.take(cursor as int)[j as int] == id);
                    }
                    lemma_ids_remove(s0, j as int);
                }
                self.take_out(layout, j)
            },
        };
        proof {
            assert forall|i: int| 0 <= i < s0.len() implies (#[trigger] s0[i]).wf() by {}
        }
        self.rotate_node_in(layout, cursor, node);
        let _bounded: usize = self.nodes.len();
        if found.is_none() {
            Resolution::Created
        } else {
            Resolution::Moved
        }
    }
}

} // verus!
