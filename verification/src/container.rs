//! The reconciler: declaring the children of one item, frame after frame.

use crate::id::{child_id, derive_id, IdStack, ItemID};
use crate::layout::{prune_ops, LayoutNode};
use crate::order::{move_to, position, resolved_ids, rotate_in};
use crate::store::{
    ids_of, resolve_ops, BehaviorAny, BehaviorKind, ItemNode, NodeStore, Resolution,
};
use vstd::prelude::*;

verus! {

/// `n + 1`, or `n` where that cannot be held.
pub open spec fn bump(n: usize) -> usize {
    if n < usize::MAX {
        (n + 1) as usize
    } else {
        n
    }
}

/// `n + more`, or the largest number that can be held.
pub open spec fn bump_by(n: usize, more: int) -> usize {
    if n + more <= usize::MAX {
        (n + more) as usize
    } else {
        usize::MAX
    }
}

/// Counts of what became of the declared children and of the others.
#[derive(Clone, Copy, Debug, PartialEq, Eq, Structural)]
pub struct FrameStats {
    /// Children for which a node was made.
    pub created: usize,
    /// Children whose node was moved to another position.
    pub moved: usize,
    /// Children whose node was found in place.
    pub reused: usize,
    /// Nodes that were dropped because they were not declared.
    pub pruned: usize,
}

impl FrameStats {
    /// The counts with one more child that was resolved as `how`.
    pub open spec fn recorded(self, how: Resolution) -> FrameStats {
        match how {
            Resolution::Created => FrameStats { created: bump(self.created), ..self },
            Resolution::Moved => FrameStats { moved: bump(self.moved), ..self },
            Resolution::Reused => FrameStats { reused: bump(self.reused), ..self },
        }
    }

    /// The counts with `n` more nodes that were dropped.
    pub open spec fn dropped(self, n: int) -> FrameStats {
        FrameStats { pruned: bump_by(self.pruned, n), ..self }
    }

    /// All counts at zero.
    pub fn new() -> (stats: FrameStats)
        ensures
            stats == (FrameStats { created: 0, moved: 0, reused: 0, pruned: 0 }),
    {
        FrameStats { created: 0, moved: 0, reused: 0, pruned: 0 }
    }

    /// Counts one more child that was resolved as `how`.
    pub fn record(&mut self, how: Resolution)
        ensures
            *final(self) == old(self).recorded(how),
    {
        match how {
            Resolution::Created => {
                if self.created < usize::MAX {
                    self.created = self.created + 1;
                }
            },
            Resolution::Moved => {
                if self.moved < usize::MAX {
                    self.moved = self.moved + 1;
                }
            },
            Resolution::Reused => {
                if self.reused < usize::MAX {
                    self.reused = self.reused + 1;
                }
            },
        }
    }

    /// Counts `n` more nodes that were dropped.
    pub fn record_pruned(&mut self, n: usize)
        ensures
            *final(self) == old(self).dropped(n as int),
    {
        if n <= usize::MAX - self.pruned {
            self.pruned = self.pruned + n;
        } else {
            self.pruned = usize::MAX;
        }
    }
}

/// State that is shared by all containers of one traversal.
pub struct UiState {
    /// The scopes that are open.
    pub id_stack: IdStack,
    /// What became of the children since the counts were last reset.
    pub stats: FrameStats,
}

impl UiState {
    /// State for a traversal that has not begun.
    pub fn new() -> (state: UiState)
        ensures
            state.id_stack@ == Seq::<ItemID>::empty(),
            state.stats == (FrameStats { created: 0, moved: 0, reused: 0, pruned: 0 }),
    {
        UiState { id_stack: IdStack::new(), stats: FrameStats::new() }
    }
}

/// What the user did to an item since it was last declared.
pub struct ItemResult {
    /// The item was clicked since the last call.
    pub clicked: bool,
    /// The mouse is hovering over the item.
    pub hover: bool,
}

/// A helper for the construction of item hierarchies: the children of one
/// item are declared through it, one after the other.
///
/// The fields are open to contracts. Code that writes to them has to leave
/// the container well formed (`wf`).
pub struct UiContainer<'a, I, B, L> {
    /// The state shared by the whole traversal.
    pub ui_state: &'a mut UiState,
    /// The identifier of the item whose children are declared.
    pub id: ItemID,
    /// The children of the item.
    pub children: &'a mut NodeStore<I, B, L>,
    /// The layout node of the item.
    pub layout: &'a mut LayoutNode<L>,
    /// Number of children declared so far in this frame.
    pub cur_index: usize,
}

impl<'a, I, B, L> UiContainer<'a, I, B, L> {
    /// The children are well formed, the layout node has them in their
    /// order, and the cursor is not behind their end.
    pub open spec fn wf(&self) -> bool {
        &&& self.children.wf()
        &&& self.layout@ == self.children.ids()
        &&& self.cur_index <= self.children@.len()
    }

    /// The identifiers of the children declared so far in this frame.
    pub open spec fn declared(&self) -> Seq<ItemID> {
        self.children.ids().take(self.cur_index as int)
    }

    /// Create the container for the root item.
    pub fn new_root(id: ItemID, item_node: &'a mut ItemNode<I, B, L>, ui_state: &'a mut UiState) -> (c:
        UiContainer<'a, I, B, L>)
        requires
            old(item_node).wf(),
        ensures
            c.wf(),
            c.id == id,
            c.cur_index == 0,
            *c.children == old(item_node).children(),
            *c.layout == old(item_node).layout(),
            *c.ui_state == *old(ui_state),
            final(item_node).id() == old(item_node).id(),
            final(item_node).item() == old(item_node).item(),
            final(item_node).behavior() == old(item_node).behavior(),
            final(item_node).children() == *final(c.children),
            final(item_node).layout() == *final(c.layout),
            *final(ui_state) == *final(c.ui_state),
    {
        let (children, layout, _item, _behavior) = item_node.parts();
        UiContainer { ui_state, children, layout, id, cur_index: 0 }
    }

    /// Ends the frame for this item: the children that were not declared in
    /// it are dropped, with their subtrees and their layout nodes.
    pub fn finish(self)
        requires
            self.wf(),
        ensures
            final(self.children)@ == old(self.children)@.take(self.cur_index as int),
            final(self.children).wf(),
            final(self.layout)@ == final(self.children).ids(),
            final(self.layout).handle() == old(self.layout).handle(),
            final(self.layout).follows(*old(self.layout)),
            final(self.layout).pending() == old(self.layout).pending() + prune_ops(
                old(self.children).ids(),
                self.cur_index as int,
            ),
            final(self.ui_state).id_stack == old(self.ui_state).id_stack,
            final(self.ui_state).stats == old(self.ui_state).stats.dropped(
                old(self.children)@.len() - self.cur_index,
            ),
    {
        let pruned: usize = self.children.len() - self.cur_index;
        self.ui_state.stats.record_pruned(pruned);
        self.children.prune(self.layout, self.cur_index);
    }
}

/// `node` is the node `id` with the given components.
pub open spec fn made_of<I, B, L>(
    node: ItemNode<I, B, L>,
    id: ItemID,
    children: NodeStore<I, B, L>,
    layout: LayoutNode<L>,
    item: I,
    behavior: BehaviorAny<B>,
) -> bool {
    &&& node.id() == id
    &&& node.children() == children
    &&& node.layout() == layout
    &&& node.item() == item
    &&& node.behavior() == behavior
}

/// The nodes after a child `id` was declared at cursor `c`, where
/// `at_cursor` is the node that stands at the cursor afterwards: the nodes
/// are left in place where the node `id` stood there, it is moved there
/// where it stood elsewhere, and `at_cursor` is rotated in where there was
/// none.
pub open spec fn resolved_nodes<I, B, L>(
    nodes: Seq<ItemNode<I, B, L>>,
    c: int,
    id: ItemID,
    at_cursor: ItemNode<I, B, L>,
) -> Seq<ItemNode<I, B, L>> {
    match position(ids_of(nodes), id) {
        None => rotate_in(nodes, c, at_cursor),
        Some(j) => if j == c {
            nodes.update(c, at_cursor)
        } else {
            move_to(nodes, j, c).update(c, at_cursor)
        },
    }
}

/// What became of a declared child: a node was made, moved or left in place.
pub open spec fn resolution(ids: Seq<ItemID>, c: int, id: ItemID) -> Resolution {
    match position(ids, id) {
        None => Resolution::Created,
        Some(j) => if j == c {
            Resolution::Reused
        } else {
            Resolution::Moved
        },
    }
}

impl<'a, I: Default, B, L: Default> UiContainer<'a, I, B, L> {
    /// Gets the child item with the identifier `new_item_id`, or creates a
    /// child with this identifier and the behavior `init_behavior` if none
    /// exists, and puts it at the cursor, which then moves on by one.
    ///
    /// Returns
    /// - a container for the children of the child item,
    /// - a mutable reference to the item record,
    /// - a mutable reference to the behavior.
    ///
    /// The three do not overlap. What is written through them is what the
    /// node at the cursor holds once they are given up.
    pub fn new_item<'b>(&'b mut self, new_item_id: ItemID, init_behavior: BehaviorAny<B>) -> (views:
        (UiContainer<'b, I, B, L>, &'b mut I, &'b mut BehaviorAny<B>))
        requires
            old(self).wf(),
            !old(self).declared().contains(new_item_id),
        ensures
            views.0.wf(),
            views.0.id == new_item_id,
            views.0.cur_index == 0,
            views.0.ui_state.id_stack == old(self).ui_state.id_stack,
            views.0.ui_state.stats == old(self).ui_state.stats.recorded(
                resolution(old(self).children.ids(), old(self).cur_index as int, new_item_id),
            ),
            match position(old(self).children.ids(), new_item_id) {
                None => {
                    &&& views.0.children@.len() == 0
                    &&& views.0.layout@.len() == 0
                    &&& call_ensures(L::default, (), views.0.layout.handle())
                    &&& call_ensures(I::default, (), *views.1)
                    &&& *views.2 == init_behavior
                },
                Some(j) => made_of(
                    old(self).children@[j],
                    new_item_id,
                    *views.0.children,
                    *views.0.layout,
                    *views.1,
                    *views.2,
                ),
            },
            final(self).id == old(self).id,
            final(self).cur_index == old(self).cur_index + 1,
            *final(self).ui_state == *final(views.0.ui_state),
            final(self).layout@ == final(self).children.ids(),
            final(self).layout.handle() == old(self).layout.handle(),
            final(self).layout.follows(*old(self).layout),
            final(self).layout.pending() == old(self).layout.pending() + resolve_ops(
                old(self).children.ids(),
                old(self).cur_index as int,
                new_item_id,
            ),
            final(self).children.ids() == resolved_ids(
                old(self).children.ids(),
                old(self).cur_index as int,
                new_item_id,
            ),
            final(self).declared() == old(self).declared().push(new_item_id),
            final(self).children@ == resolved_nodes(
                old(self).children@,
                old(self).cur_index as int,
                new_item_id,
                final(self).children@[old(self).cur_index as int],
            ),
            made_of(
                final(self).children@[old(self).cur_index as int],
                new_item_id,
                *final(views.0.children),
                *final(views.0.layout),
                *final(views.1),
                *final(views.2),
            ),
            final(views.0.children).wf() && final(views.0.layout)@ == final(views.0.children).ids()
                ==> final(self).wf(),
            *final(final(self).ui_state) == *final(old(self).ui_state),
            *final(final(self).children) == *final(old(self).children),
            *final(final(self).layout) == *final(old(self).layout),
    {
        let cur_index: usize = self.cur_index;
        let ghost s0 = self.children@;
        let how = self.children.resolve(self.layout, cur_index, new_item_id, init_behavior);
        self.ui_state.stats.record(how);
        let ghost s1 = self.children@;
        proof {
            assert(ids_of(s1).take(cur_index + 1) =~= ids_of(s0).take(cur_index as int).push(
                new_item_id,
            ));
        }
        self.cur_index = cur_index + 1;
        let (children, layout, item, behavior) = self.children.views(cur_index);
        (
            UiContainer { ui_state: self.ui_state, children, layout, id: new_item_id, cur_index: 0 },
            item,
            behavior,
        )
    }
}

/// A child that was declared stands before the cursor.
proof fn lemma_declared_are_children(ids: Seq<ItemID>, c: int, id: ItemID)
    requires
        0 <= c <= ids.len(),
        ids.take(c).contains(id),
    ensures
        ids.contains(id),
        ids.no_duplicates() ==> ids.index_of(id) < c,
{
    let k = ids.take(c).index_of(id);
    assert(ids[k] == id);
}

impl<'a, I: Default, B, L: Default> UiContainer<'a, I, B, L> {
    /// The identifier that the key `key` gets under this container.
    pub open spec fn key_id(&self, key: Seq<char>) -> ItemID {
        child_id(self.ui_state.id_stack.current(), key)
    }

    /// A child with the key `key` and a behavior of type `kind` can be
    /// declared next: no child of this frame has its identifier, and the
    /// node that has it, if any, holds a behavior of that type.
    pub open spec fn admits(&self, key: Seq<char>, kind: BehaviorKind) -> bool {
        &&& !self.declared().contains(self.key_id(key))
        &&& match position(self.children.ids(), self.key_id(key)) {
            None => true,
            Some(j) => self.children@[j].behavior().kind() == kind,
        }
    }

    /// Whether a child with the key `key` and a behavior of type `kind` can
    /// be declared next.
    pub fn can_declare(&self, key: &str, kind: BehaviorKind) -> (ok: bool)
        requires
            self.wf(),
        ensures
            ok == self.admits(key@, kind),
    {
        let id: ItemID = derive_id(self.ui_state.id_stack.current_id(), key);
        match self.children.position_of(id) {
            None => {
                proof {
                    if self.declared().contains(id) {
                        lemma_declared_are_children(self.children.ids(), self.cur_index as int, id);
                    }
                }
                true
            },
            Some(j) => {
                if j < self.cur_index {
                    proof {
                        assert(self.declared()[j as int] == id);
                    }
                    false
                } else {
                    proof {
                        if self.declared().contains(id) {
                            lemma_declared_are_children(
                                self.children.ids(),
                                self.cur_index as int,
                                id,
                            );
                        }
                    }
                    match self.children.get(j) {
                        Some(node) => node.behavior_ref().kind_of() == kind,
                        None => false,
                    }
                }
            },
        }
    }

    /// Declares the child with the key `id` and hands it to `f`.
    ///
    /// The key is pushed on the identity stack, the child is matched against
    /// the children of the last frame (see `new_item`), `f` is called with a
    /// container for the child's own children, its item record and the state
    /// of its behavior, the children of the child that `f` did not declare
    /// are pruned, and the key is popped. `init` is the behavior of a child
    /// that did not exist, and names the type of one that did.
    pub fn item<F>(&mut self, id: &str, init: BehaviorAny<B>, f: F) where
        F: FnOnce(&mut UiContainer<I, B, L>, &mut I, &mut B),

        requires
            old(self).wf(),
            old(self).admits(id@, init.kind()),
            forall|ui: &mut UiContainer<I, B, L>, item: &mut I, state: &mut B|
                ui.wf() && ui.cur_index == 0 && ui.id == old(self).key_id(id@)
                    && ui.ui_state.id_stack@ == old(self).ui_state.id_stack@.push(
                    old(self).key_id(id@),
                ) ==> call_requires(f, (ui, item, state)),
            forall|ui: &mut UiContainer<I, B, L>, item: &mut I, state: &mut B|
                ui.wf() && ui.cur_index == 0 && ui.id == old(self).key_id(id@)
                    && ui.ui_state.id_stack@ == old(self).ui_state.id_stack@.push(
                    old(self).key_id(id@),
                ) && call_ensures(f, (ui, item, state), ()) ==> {
                    &&& final(ui).wf()
                    &&& final(ui).ui_state.id_stack@ == ui.ui_state.id_stack@
                    &&& *final(final(ui).ui_state) == *final(ui.ui_state)
                    &&& *final(final(ui).children) == *final(ui.children)
                    &&& *final(final(ui).layout) == *final(ui.layout)
                },
        ensures
            final(self).wf(),
            final(self).id == old(self).id,
            final(self).cur_index == old(self).cur_index + 1,
            final(self).ui_state.id_stack@ == old(self).ui_state.id_stack@,
            final(self).layout.handle() == old(self).layout.handle(),
            final(self).layout.follows(*old(self).layout),
            final(self).layout.pending() == old(self).layout.pending() + resolve_ops(
                old(self).children.ids(),
                old(self).cur_index as int,
                old(self).key_id(id@),
            ),
            final(self).children.ids() == resolved_ids(
                old(self).children.ids(),
                old(self).cur_index as int,
                old(self).key_id(id@),
            ),
            final(self).declared() == old(self).declared().push(old(self).key_id(id@)),
            final(self).children@ == resolved_nodes(
                old(self).children@,
                old(self).cur_index as int,
                old(self).key_id(id@),
                final(self).children@[old(self).cur_index as int],
            ),
            final(self).children@[old(self).cur_index as int].behavior().kind() == init.kind(),
            final(self).children@[old(self).cur_index as int].wf(),
            exists|ui: &mut UiContainer<I, B, L>, item: &mut I, state: &mut B|
                {
                    &&& #[trigger] call_ensures(f, (ui, item, state), ())
                    &&& ui.wf()
                    &&& ui.cur_index == 0
                    &&& ui.id == old(self).key_id(id@)
                    &&& ui.ui_state.id_stack@ == old(self).ui_state.id_stack@.push(
                        old(self).key_id(id@),
                    )
                    &&& ui.ui_state.stats == old(self).ui_state.stats.recorded(
                        resolution(
                            old(self).children.ids(),
                            old(self).cur_index as int,
                            old(self).key_id(id@),
                        ),
                    )
                    &&& final(self).ui_state.stats == final(ui).ui_state.stats.dropped(
                        final(ui).children@.len() - final(ui).cur_index,
                    )
                    &&& match position(old(self).children.ids(), old(self).key_id(id@)) {
                        None => {
                            &&& ui.children@.len() == 0
                            &&& call_ensures(I::default, (), *item)
                            &&& *state == init.state()
                        },
                        Some(j) => {
                            &&& *ui.children == old(self).children@[j].children()
                            &&& *item == old(self).children@[j].item()
                            &&& *state == old(self).children@[j].behavior().state()
                        },
                    }
                    &&& final(self).children@[old(self).cur_index as int].item() == *final(item)
                    &&& final(self).children@[old(self).cur_index as int].behavior().state()
                        == *final(state)
                    &&& final(self).children@[old(self).cur_index as int].children()@
                        == final(ui).children@.take(final(ui).cur_index as int)
                },
            *final(final(self).ui_state) == *final(old(self).ui_state),
            *final(final(self).children) == *final(old(self).children),
            *final(final(self).layout) == *final(old(self).layout),
    {
        let kind: BehaviorKind = init.kind_of();
        let item_id: ItemID = self.ui_state.id_stack.push_id(id);
        {
            let (mut ui, item, behavior) = self.new_item(item_id, init);
            match behavior.downcast_mut(kind) {
                Some(state) => {
                    f(&mut ui, item, state);
                },
                None => {
                    // `admits`: the node holds a behavior of this kind
                    assert(false);
                },
            }
            ui.finish();
        }
        self.ui_state.id_stack.pop_id();
    }
}

} // verus!
