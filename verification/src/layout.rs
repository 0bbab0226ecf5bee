//! The layout tree adapter.
//!
//! Every item node has a layout node. A layout node records the order of its
//! children as the layout engine must see it, and a log of the insertions
//! and removals by which that order was reached, for the embedding
//! application to carry out on the engine's own tree.

use crate::id::ItemID;
use vstd::prelude::*;

verus! {

/// One structural change of a layout node's child list.
#[derive(Clone, Copy, Debug, PartialEq, Eq, Structural)]
pub enum LayoutOp {
    /// The layout node of `child` becomes the child at position `index`.
    Insert { child: ItemID, index: usize },
    /// The layout node of `child` is detached.
    Remove { child: ItemID },
}

/// The child order that `op` makes of `order`.
///
/// A removal takes out the first occurrence of the child. An insertion of a
/// child that is present, or behind the end, and a removal of a child that
/// is absent, change nothing.
pub open spec fn apply_op(order: Seq<ItemID>, op: LayoutOp) -> Seq<ItemID> {
    match op {
        LayoutOp::Insert { child, index } => if index <= order.len() && !order.contains(child) {
            order.insert(index as int, child)
        } else {
            order
        },
        LayoutOp::Remove { child } => match order.index_of_first(child) {
            Some(i) => order.remove(i),
            None => order,
        },
    }
}

/// The child order that `ops`, carried out first to last, make of `order`.
pub open spec fn replay(order: Seq<ItemID>, ops: Seq<LayoutOp>) -> Seq<ItemID>
    decreases ops.len(),
{
    if ops.len() == 0 {
        order
    } else {
        apply_op(replay(order, ops.drop_last()), ops.last())
    }
}

/// The changes by which the child `a` is rotated in at position `c` of
/// `order`: it is inserted there, and the child that stood there is moved
/// behind the last, unless it stands there already.
pub open spec fn rotate_in_ops(order: Seq<ItemID>, c: int, a: ItemID) -> Seq<LayoutOp> {
    if 0 <= c < order.len() && c + 1 != order.len() {
        seq![
            LayoutOp::Insert { child: a, index: c as usize },
            LayoutOp::Remove { child: order[c] },
            LayoutOp::Insert { child: order[c], index: order.len() as usize },
        ]
    } else {
        seq![LayoutOp::Insert { child: a, index: c as usize }]
    }
}

/// The changes by which the children from position `len` on are detached,
/// last first.
pub open spec fn prune_ops(order: Seq<ItemID>, len: int) -> Seq<LayoutOp> {
    Seq::new(
        (order.len() - len) as nat,
        |i: int| LayoutOp::Remove { child: order[order.len() - 1 - i] },
    )
}

/// Replaying `a + b` is replaying `a`, then `b`.
pub proof fn lemma_replay_concat(order: Seq<ItemID>, a: Seq<LayoutOp>, b: Seq<LayoutOp>)
    ensures
        replay(order, a + b) == replay(replay(order, a), b),
    decreases b.len(),
{
    if b.len() > 0 {
        lemma_replay_concat(order, a, b.drop_last());
        assert((a + b).drop_last() =~= a + b.drop_last());
    }
}

/// The layout counterpart of one item node.
///
/// `L` is the handle by which the application finds the node of the layout
/// engine that this one stands for.
pub struct LayoutNode<L> {
    handle: L,
    children: Vec<ItemID>,
    log: Vec<LayoutOp>,
}

impl<L> View for LayoutNode<L> {
    type V = Seq<ItemID>;

    /// The children, in layout order.
    closed spec fn view(&self) -> Seq<ItemID> {
        self.children@
    }
}

impl<L> LayoutNode<L> {
    /// The application's handle.
    pub closed spec fn handle(&self) -> L {
        self.handle
    }

    /// The changes that have not been taken yet, oldest first.
    pub closed spec fn pending(&self) -> Seq<LayoutOp> {
        self.log@
    }

    /// `self` is what `before` becomes by changes that were all logged: the
    /// log of `before` is the start of the log of `self`, and replaying the
    /// rest on the children of `before` gives the children of `self`.
    pub open spec fn follows(&self, before: LayoutNode<L>) -> bool {
        &&& before.pending().is_prefix_of(self.pending())
        &&& replay(before@, self.pending().skip(before.pending().len() as int)) == self@
    }

    /// A layout node without children.
    pub fn new(handle: L) -> (node: LayoutNode<L>)
        ensures
            node.handle() == handle,
            node@ == Seq::<ItemID>::empty(),
            node.pending() == Seq::<LayoutOp>::empty(),
    {
        LayoutNode { handle, children: Vec::new(), log: Vec::new() }
    }

    /// The application's handle.
    pub fn handle_ref(&self) -> (handle: &L)
        ensures
            *handle == self.handle(),
    {
        &self.handle
    }

    /// The application's handle, for writing. The children and the log
    /// stay as they are.
    pub fn handle_mut(&mut self) -> (handle: &mut L)
        ensures
            *handle == old(self).handle(),
            final(self).handle() == *final(handle),
            final(self)@ == old(self)@,
            final(self).pending() == old(self).pending(),
    {
        &mut self.handle
    }

    /// Number of children.
    pub fn child_count(&self) -> (n: usize)
        ensures
            n == self@.len(),
    {
        self.children.len()
    }

    /// The child at position `index`.
    pub fn child_at(&self, index: usize) -> (child: Option<ItemID>)
        ensures
            child == if index < self@.len() {
                Some(self@[index as int])
            } else {
                None
            },
    {
        if index < self.children.len() {
            Some(self.children[index])
        } else {
            None
        }
    }

    /// The children, in layout order.
    pub fn order(&self) -> (order: Vec<ItemID>)
        ensures
            order@ == self@,
    {
        let mut order: Vec<ItemID> = Vec::new();
        let mut i: usize = 0;
        while i < self.children.len()
            invariant
                i <= self.children.len(),
                order@ == self.children@.take(i as int),
            decreases self.children.len() - i,
        {
            proof {
                assert(self.children@.take(i + 1) =~= self.children@.take(i as int).push(
                    self.children@[i as int],
                ));
            }
            order.push(self.children[i]);
            i += 1;
        }
        order
    }

    /// The first position at which `child` stands.
    pub fn position_of(&self, child: ItemID) -> (pos: Option<usize>)
        ensures
            match pos {
                Some(i) => self@.index_of_first(child) == Some(i as int),
                None => self@.index_of_first(child).is_none(),
            },
            pos.is_some() == self@.contains(child),
    {
        let mut i: usize = 0;
        while i < self.children.len()
            invariant
                i <= self.children.len(),
                forall|k: int| 0 <= k < i ==> self.children@[k] != child,
            decreases self.children.len() - i,
        {
            if self.children[i] == child {
                proof {
                    self.children@.index_of_first_ensures(child);
                }
                return Some(i);
            }
            i += 1;
        }
        proof {
            self.children@.index_of_first_ensures(child);
        }
        None
    }

    /// Inserts `child` at position `index`; the children from there on move
    /// back by one.
    pub fn insert_child(&mut self, child: ItemID, index: usize)
        requires
            index <= old(self)@.len(),
            !old(self)@.contains(child),
        ensures
            final(self).handle() == old(self).handle(),
            final(self)@ == old(self)@.insert(index as int, child),
            final(self)@ == apply_op(old(self)@, (LayoutOp::Insert { child, index })),
            final(self).pending() == old(self).pending().push((LayoutOp::Insert { child, index })),
            forall|before: LayoutNode<L>|
                old(self).follows(before) ==> final(self).follows(before),
    {
        let ghost op = LayoutOp::Insert { child, index };
        proof {
            // one more logged change keeps the node a successor
            assert forall|before: LayoutNode<L>| self.follows(before) implies before.pending().is_prefix_of(
            self.pending().push(op)) && replay(
                before@,
                self.pending().push(op).skip(before.pending().len() as int),
            ) == apply_op(self@, op) by {
                lemma_follows_step(before, self.pending(), self@, op);
            }
        }
        self.children.insert(index, child);
        self.log.push(LayoutOp::Insert { child, index });
    }

    /// Detaches `child`; nothing but the log changes where it is no child.
    pub fn remove_child(&mut self, child: ItemID)
        ensures
            final(self).handle() == old(self).handle(),
            final(self)@ == apply_op(old(self)@, (LayoutOp::Remove { child })),
            final(self).pending() == old(self).pending().push((LayoutOp::Remove { child })),
            forall|before: LayoutNode<L>|
                old(self).follows(before) ==> final(self).follows(before),
    {
        let ghost op = LayoutOp::Remove { child };
        proof {
            // one more logged change keeps the node a successor
            assert forall|before: LayoutNode<L>| self.follows(before) implies before.pending().is_prefix_of(
            self.pending().push(op)) && replay(
                before@,
                self.pending().push(op).skip(before.pending().len() as int),
            ) == apply_op(self@, op) by {
                lemma_follows_step(before, self.pending(), self@, op);
            }
        }
        match self.position_of(child) {
            Some(i) => {
                proof {
                    self.children@.index_of_first_ensures(child);
                }
                self.children.remove(i);
            },
            None => {},
        }
        self.log.push(LayoutOp::Remove { child });
    }

    /// Hands out the log and empties it; the children stay.
    pub fn take_ops(&mut self) -> (ops: Vec<LayoutOp>)
        ensures
            ops@ == old(self).pending(),
            final(self).pending() == Seq::<LayoutOp>::empty(),
            final(self)@ == old(self)@,
            final(self).handle() == old(self).handle(),
    {
        let mut ops: Vec<LayoutOp> = Vec::new();
        std::mem::swap(&mut ops, &mut self.log);
        ops
    }
}

/// One more logged change keeps a layout node a successor of `before`.
pub proof fn lemma_follows_step<L>(
    before: LayoutNode<L>,
    log: Seq<LayoutOp>,
    order: Seq<ItemID>,
    op: LayoutOp,
)
    requires
        before.pending().is_prefix_of(log),
        replay(before@, log.skip(before.pending().len() as int)) == order,
    ensures
        before.pending().is_prefix_of(log.push(op)),
        replay(before@, log.push(op).skip(before.pending().len() as int)) == apply_op(order, op),
{
    let n = before.pending().len() as int;
    assert(log.push(op).skip(n).drop_last() =~= log.skip(n));
}

} // verus!
