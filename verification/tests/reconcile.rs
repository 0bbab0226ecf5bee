use punchcard::container::{FrameStats, UiContainer, UiState};
use punchcard::id::{derive_id, ItemID, ROOT_SCOPE};
use punchcard::layout::LayoutOp;
use punchcard::store::{BehaviorAny, ItemNode};

/// Item record of the tests: counts the frames in which the item was declared.
#[derive(Default, Debug, PartialEq)]
struct Item {
    frames: u32,
}

const ROOT: u64 = 0;
const VBOX: u64 = 1;
const TEXT: u64 = 2;

type Node = ItemNode<Item, String, ()>;

fn new_root() -> Node {
    ItemNode::new(7, BehaviorAny::new(ROOT, String::new()))
}

/// Declares one text item per key; each visit counts a frame and appends a
/// mark to the behavior's state.
fn declare_texts(ui: &mut UiContainer<Item, String, ()>, keys: &[&str]) {
    for key in keys {
        assert!(ui.can_declare(key, TEXT));
        ui.item(key, BehaviorAny::new(TEXT, key.to_string()), |_, item, state| {
            item.frames += 1;
            state.push('!');
        });
    }
}

/// One frame in which the root's children are text items with the given keys.
fn frame(root: &mut Node, state: &mut UiState, keys: &[&str]) {
    state.stats = FrameStats::new();
    let mut ui = UiContainer::new_root(7, root, state);
    declare_texts(&mut ui, keys);
    ui.finish();
}

/// One frame in which the root holds a box "root" with the given text items.
fn boxed_frame(root: &mut Node, state: &mut UiState, keys: &[&str]) {
    state.stats = FrameStats::new();
    let mut ui = UiContainer::new_root(7, root, state);
    ui.item("root", BehaviorAny::new(VBOX, String::new()), |ui, item, _| {
        item.frames += 1;
        declare_texts(ui, keys);
    });
    ui.finish();
}

fn ids(keys: &[&str]) -> Vec<ItemID> {
    keys.iter().map(|k| derive_id(ROOT_SCOPE, k)).collect()
}

fn ids_under(scope: ItemID, keys: &[&str]) -> Vec<ItemID> {
    keys.iter().map(|k| derive_id(scope, k)).collect()
}

fn child<'a>(node: &'a Node, index: usize) -> &'a Node {
    node.children_ref().get(index).unwrap()
}

fn text_of(node: &Node) -> String {
    node.behavior_ref().downcast_ref(TEXT).unwrap().clone()
}

fn replay(mut order: Vec<ItemID>, ops: &[LayoutOp]) -> Vec<ItemID> {
    for op in ops {
        match *op {
            LayoutOp::Insert { child, index } => order.insert(index, child),
            LayoutOp::Remove { child } => {
                let at = order.iter().position(|c| *c == child).unwrap();
                order.remove(at);
            }
        }
    }
    order
}

#[test]
fn new_node_is_empty() {
    let root = new_root();
    assert_eq!(root.item_id(), 7);
    assert_eq!(*root.item_ref(), Item::default());
    assert_eq!(root.behavior_ref().kind_of(), ROOT);
    assert_eq!(root.children_ref().len(), 0);
    assert_eq!(root.layout_ref().child_count(), 0);
    assert!(root.children_ref().get(0).is_none());
}

#[test]
fn first_frame_creates_children_in_declared_order() {
    let mut root = new_root();
    let mut state = UiState::new();
    frame(&mut root, &mut state, &["A", "B", "C"]);
    assert_eq!(root.children_ref().item_ids(), ids(&["A", "B", "C"]));
    assert_eq!(root.layout_ref().order(), ids(&["A", "B", "C"]));
    assert_eq!(state.stats, FrameStats { created: 3, moved: 0, reused: 0, pruned: 0 });
    for (i, key) in ["A", "B", "C"].iter().enumerate() {
        let node = child(&root, i);
        assert_eq!(node.item_id(), derive_id(ROOT_SCOPE, key));
        assert_eq!(node.item_ref().frames, 1);
        assert_eq!(text_of(node), format!("{}!", key));
        assert_eq!(node.children_ref().len(), 0);
    }
    assert_eq!(state.id_stack.depth(), 0);
}

#[test]
fn identity_is_stable_across_frames() {
    let mut root = new_root();
    let mut state = UiState::new();
    frame(&mut root, &mut state, &["A", "B", "C"]);
    let before = root.children_ref().item_ids();
    root.parts().1.take_ops();
    frame(&mut root, &mut state, &["A", "B", "C"]);
    assert_eq!(root.children_ref().item_ids(), before);
    assert_eq!(state.stats, FrameStats { created: 0, moved: 0, reused: 3, pruned: 0 });
    // the same nodes, at the same positions, with their state
    for (i, key) in ["A", "B", "C"].iter().enumerate() {
        assert_eq!(child(&root, i).item_ref().frames, 2);
        assert_eq!(text_of(child(&root, i)), format!("{}!!", key));
    }
    // nothing was asked of the layout tree
    assert!(root.parts().1.take_ops().is_empty());
}

#[test]
fn reorder_keeps_every_node() {
    let mut root = new_root();
    let mut state = UiState::new();
    frame(&mut root, &mut state, &["A", "B", "C"]);
    frame(&mut root, &mut state, &["C", "A", "B"]);
    assert_eq!(root.children_ref().item_ids(), ids(&["C", "A", "B"]));
    assert_eq!(root.layout_ref().order(), ids(&["C", "A", "B"]));
    assert_eq!(state.stats, FrameStats { created: 0, moved: 2, reused: 1, pruned: 0 });
    for (i, key) in ["C", "A", "B"].iter().enumerate() {
        assert_eq!(child(&root, i).item_ref().frames, 2);
        assert_eq!(text_of(child(&root, i)), format!("{}!!", key));
    }
}

#[test]
fn undeclared_child_is_pruned_and_made_anew() {
    let mut root = new_root();
    let mut state = UiState::new();
    frame(&mut root, &mut state, &["A", "B", "C"]);
    frame(&mut root, &mut state, &["A", "C"]);
    assert_eq!(root.children_ref().item_ids(), ids(&["A", "C"]));
    assert_eq!(root.layout_ref().order(), ids(&["A", "C"]));
    assert_eq!(state.stats, FrameStats { created: 0, moved: 1, reused: 1, pruned: 1 });
    assert_eq!(root.children_ref().position_of(derive_id(ROOT_SCOPE, "B")), None);
    assert_eq!(root.layout_ref().position_of(derive_id(ROOT_SCOPE, "B")), None);

    frame(&mut root, &mut state, &["A", "B", "C"]);
    assert_eq!(root.children_ref().item_ids(), ids(&["A", "B", "C"]));
    assert_eq!(state.stats.created, 1);
    assert_eq!(state.stats.pruned, 0);
    // A and C lived through three frames, B is new
    assert_eq!(child(&root, 0).item_ref().frames, 3);
    assert_eq!(child(&root, 1).item_ref().frames, 1);
    assert_eq!(child(&root, 2).item_ref().frames, 3);
    assert_eq!(text_of(child(&root, 1)), "B!");
    assert_eq!(text_of(child(&root, 2)), "C!!!");
}

#[test]
fn frame_without_children_prunes_all() {
    let mut root = new_root();
    let mut state = UiState::new();
    frame(&mut root, &mut state, &["A", "B", "C"]);
    frame(&mut root, &mut state, &[]);
    assert_eq!(root.children_ref().len(), 0);
    assert_eq!(root.layout_ref().child_count(), 0);
    assert_eq!(state.stats, FrameStats { created: 0, moved: 0, reused: 0, pruned: 3 });
}

#[test]
fn pruning_takes_the_subtree() {
    let mut root = new_root();
    let mut state = UiState::new();
    boxed_frame(&mut root, &mut state, &["hello", "world"]);
    assert_eq!(child(&root, 0).children_ref().len(), 2);
    frame(&mut root, &mut state, &["other"]);
    assert_eq!(root.children_ref().item_ids(), ids(&["other"]));
    boxed_frame(&mut root, &mut state, &[]);
    assert_eq!(child(&root, 0).item_ref().frames, 1);
    assert_eq!(child(&root, 0).children_ref().len(), 0);
}

#[test]
fn views_are_disjoint() {
    let mut root = new_root();
    let mut state = UiState::new();
    for round in 1..=2u32 {
        let mut ui = UiContainer::new_root(7, &mut root, &mut state);
        ui.item("panel", BehaviorAny::new(VBOX, String::new()), |ui, item, behavior| {
            // interleaved writes through the three views
            item.frames += 1;
            ui.item("first", BehaviorAny::new(TEXT, String::from("1")), |_, item, _| {
                item.frames += 10;
            });
            behavior.push('x');
            ui.item("second", BehaviorAny::new(TEXT, String::from("2")), |_, _, state| {
                state.push('y');
            });
            item.frames += 1;
            behavior.push('z');
        });
        ui.finish();
        let panel = child(&root, 0);
        assert_eq!(panel.item_ref().frames, 2 * round);
        assert_eq!(panel.behavior_ref().downcast_ref(VBOX).unwrap().len(), 2 * round as usize);
        assert_eq!(panel.children_ref().len(), 2);
        assert_eq!(child(panel, 0).item_ref().frames, 10 * round);
        assert_eq!(text_of(child(panel, 1)).len(), 1 + round as usize);
    }
    assert_eq!(child(&root, 0).behavior_ref().downcast_ref(VBOX).unwrap(), "xzxz");
}

#[test]
fn new_item_views_write_to_the_node() {
    let mut root = new_root();
    let mut state = UiState::new();
    {
        let mut ui = UiContainer::new_root(7, &mut root, &mut state);
        {
            let (mut sub, item, behavior) = ui.new_item(5, BehaviorAny::new(TEXT, String::new()));
            assert_eq!(sub.id, 5);
            assert_eq!(sub.cur_index, 0);
            item.frames = 3;
            {
                let (inner, inner_item, _) = sub.new_item(9, BehaviorAny::new(TEXT, String::new()));
                inner_item.frames = 4;
                inner.finish();
            }
            behavior.downcast_mut(TEXT).unwrap().push_str("written");
            sub.finish();
        }
        assert_eq!(ui.cur_index, 1);
        ui.finish();
    }
    let node = child(&root, 0);
    assert_eq!(node.item_id(), 5);
    assert_eq!(node.item_ref().frames, 3);
    assert_eq!(text_of(node), "written");
    assert_eq!(node.children_ref().item_ids(), vec![9]);
    assert_eq!(node.layout_ref().order(), vec![9]);
    assert_eq!(child(node, 0).item_ref().frames, 4);
}

#[test]
fn end_to_end_swap() {
    let mut root = new_root();
    let mut state = UiState::new();
    boxed_frame(&mut root, &mut state, &["hello", "world"]);
    let vbox = derive_id(ROOT_SCOPE, "root");
    assert_eq!(root.children_ref().item_ids(), vec![vbox]);
    assert_eq!(child(&root, 0).children_ref().item_ids(), ids_under(vbox, &["hello", "world"]));
    assert_eq!(state.stats, FrameStats { created: 3, moved: 0, reused: 0, pruned: 0 });

    boxed_frame(&mut root, &mut state, &["world", "hello"]);
    // one reposition, nothing made, nothing dropped
    assert_eq!(state.stats, FrameStats { created: 0, moved: 1, reused: 2, pruned: 0 });
    let panel = child(&root, 0);
    assert_eq!(panel.children_ref().item_ids(), ids_under(vbox, &["world", "hello"]));
    assert_eq!(panel.layout_ref().order(), ids_under(vbox, &["world", "hello"]));
    assert_eq!(panel.layout_ref().order(), vec![0x8020_d45b_3b28_2107, 0xa634_15a8_326f_2343]);
    assert_eq!(text_of(child(panel, 0)), "world!!");
    assert_eq!(text_of(child(panel, 1)), "hello!!");
    assert_eq!(panel.item_ref().frames, 2);
    assert_eq!(state.id_stack.depth(), 0);
}

#[test]
fn new_child_at_the_cursor_sends_the_occupant_last() {
    let mut root = new_root();
    let mut state = UiState::new();
    frame(&mut root, &mut state, &["A", "B", "C", "D"]);
    {
        state.stats = FrameStats::new();
        let mut ui = UiContainer::new_root(7, &mut root, &mut state);
        declare_texts(&mut ui, &["X"]);
        assert_eq!(ui.children.item_ids(), ids(&["X", "B", "C", "D", "A"]));
        assert_eq!(ui.layout.order(), ids(&["X", "B", "C", "D", "A"]));
        assert_eq!(ui.cur_index, 1);
        ui.finish();
    }
    assert_eq!(root.children_ref().item_ids(), ids(&["X"]));
    assert_eq!(state.stats, FrameStats { created: 1, moved: 0, reused: 0, pruned: 4 });
}

#[test]
fn moved_child_sends_the_occupant_last() {
    let mut root = new_root();
    let mut state = UiState::new();
    frame(&mut root, &mut state, &["A", "B", "C", "D"]);
    let mut ui = UiContainer::new_root(7, &mut root, &mut state);
    declare_texts(&mut ui, &["C"]);
    assert_eq!(ui.children.item_ids(), ids(&["C", "B", "D", "A"]));
    assert_eq!(ui.layout.order(), ids(&["C", "B", "D", "A"]));
    declare_texts(&mut ui, &["B"]);
    assert_eq!(ui.children.item_ids(), ids(&["C", "B", "D", "A"]));
    declare_texts(&mut ui, &["A"]);
    assert_eq!(ui.children.item_ids(), ids(&["C", "B", "A", "D"]));
    assert_eq!(ui.layout.order(), ids(&["C", "B", "A", "D"]));
    declare_texts(&mut ui, &["N"]);
    assert_eq!(ui.children.item_ids(), ids(&["C", "B", "A", "N", "D"]));
    assert_eq!(ui.layout.order(), ids(&["C", "B", "A", "N", "D"]));
    ui.finish();
    assert_eq!(root.children_ref().item_ids(), ids(&["C", "B", "A", "N"]));
}

#[test]
fn several_children_move_in_one_frame() {
    let mut root = new_root();
    let mut state = UiState::new();
    frame(&mut root, &mut state, &["A", "B", "C", "D", "E"]);
    frame(&mut root, &mut state, &["E", "D", "C", "B", "A"]);
    assert_eq!(root.children_ref().item_ids(), ids(&["E", "D", "C", "B", "A"]));
    assert_eq!(root.layout_ref().order(), ids(&["E", "D", "C", "B", "A"]));
    assert_eq!(state.stats.created, 0);
    assert_eq!(state.stats.pruned, 0);
    for i in 0..5 {
        assert_eq!(child(&root, i).item_ref().frames, 2);
    }
    frame(&mut root, &mut state, &["B", "X", "E", "A"]);
    assert_eq!(root.children_ref().item_ids(), ids(&["B", "X", "E", "A"]));
    assert_eq!(root.layout_ref().order(), ids(&["B", "X", "E", "A"]));
    assert_eq!(state.stats.created, 1);
    assert_eq!(state.stats.pruned, 2);
    assert_eq!(child(&root, 0).item_ref().frames, 3);
    assert_eq!(child(&root, 1).item_ref().frames, 1);
}

#[test]
fn layout_log_replays_to_the_store_order() {
    let mut root = new_root();
    let mut state = UiState::new();
    frame(&mut root, &mut state, &["A", "B", "C", "D"]);
    let first = root.parts().1.take_ops();
    assert_eq!(replay(Vec::new(), &first), ids(&["A", "B", "C", "D"]));
    assert!(root.parts().1.take_ops().is_empty());

    frame(&mut root, &mut state, &["D", "B", "E"]);
    let second = root.parts().1.take_ops();
    assert_eq!(replay(ids(&["A", "B", "C", "D"]), &second), ids(&["D", "B", "E"]));
    assert_eq!(root.layout_ref().order(), ids(&["D", "B", "E"]));
}

#[test]
fn swap_logs_one_removal_and_one_insertion() {
    let mut root = new_root();
    let mut state = UiState::new();
    frame(&mut root, &mut state, &["hello", "world"]);
    root.parts().1.take_ops();
    frame(&mut root, &mut state, &["world", "hello"]);
    let world = derive_id(ROOT_SCOPE, "world");
    assert_eq!(
        root.parts().1.take_ops(),
        vec![LayoutOp::Remove { child: world }, LayoutOp::Insert { child: world, index: 0 }]
    );
}

#[test]
fn declared_child_cannot_be_declared_again() {
    let mut root = new_root();
    let mut state = UiState::new();
    frame(&mut root, &mut state, &["A", "B"]);
    let mut ui = UiContainer::new_root(7, &mut root, &mut state);
    assert!(ui.can_declare("A", TEXT));
    assert!(ui.can_declare("B", TEXT));
    declare_texts(&mut ui, &["A"]);
    assert!(!ui.can_declare("A", TEXT));
    assert!(ui.can_declare("B", TEXT));
    assert!(ui.can_declare("new", TEXT));
    ui.finish();
}

#[test]
fn behavior_of_another_type_is_refused() {
    let mut root = new_root();
    let mut state = UiState::new();
    frame(&mut root, &mut state, &["A", "B"]);
    let ui = UiContainer::new_root(7, &mut root, &mut state);
    assert!(ui.can_declare("A", TEXT));
    assert!(!ui.can_declare("A", VBOX));
    assert!(!ui.can_declare("B", VBOX));
    assert!(ui.can_declare("C", VBOX));
}

#[test]
fn existing_child_keeps_its_behavior() {
    let mut root = new_root();
    let mut state = UiState::new();
    {
        let mut ui = UiContainer::new_root(7, &mut root, &mut state);
        ui.item("A", BehaviorAny::new(TEXT, String::from("first")), |_, _, _| {});
        ui.finish();
    }
    {
        let mut ui = UiContainer::new_root(7, &mut root, &mut state);
        ui.item("A", BehaviorAny::new(TEXT, String::from("second")), |_, _, state| {
            assert_eq!(state, "first");
        });
        ui.finish();
    }
    assert_eq!(text_of(child(&root, 0)), "first");
    assert_eq!(state.stats, FrameStats { created: 1, moved: 0, reused: 1, pruned: 0 });
}

#[test]
fn identity_stack_is_balanced_by_item() {
    let mut root = new_root();
    let mut state = UiState::new();
    let mut seen = Vec::new();
    {
        let mut ui = UiContainer::new_root(7, &mut root, &mut state);
        ui.item("a", BehaviorAny::new(VBOX, String::new()), |ui, _, _| {
            seen.push((ui.id, ui.ui_state.id_stack.depth()));
            ui.item("b", BehaviorAny::new(VBOX, String::new()), |ui, _, _| {
                seen.push((ui.id, ui.ui_state.id_stack.depth()));
            });
            seen.push((ui.id, ui.ui_state.id_stack.depth()));
        });
        assert_eq!(ui.ui_state.id_stack.depth(), 0);
        ui.finish();
    }
    let a = derive_id(ROOT_SCOPE, "a");
    let b = derive_id(a, "b");
    assert_eq!(seen, vec![(a, 1), (b, 2), (a, 1)]);
    assert_eq!(child(&root, 0).item_id(), a);
    assert_eq!(child(child(&root, 0), 0).item_id(), b);
}

#[test]
fn same_key_under_two_parents_gives_two_ids() {
    let mut root = new_root();
    let mut state = UiState::new();
    let mut ui = UiContainer::new_root(7, &mut root, &mut state);
    ui.item("left", BehaviorAny::new(VBOX, String::new()), |ui, _, _| {
        declare_texts(ui, &["label"]);
    });
    ui.item("right", BehaviorAny::new(VBOX, String::new()), |ui, _, _| {
        declare_texts(ui, &["label"]);
    });
    ui.finish();
    let left = child(child(&root, 0), 0).item_id();
    let right = child(child(&root, 1), 0).item_id();
    assert_ne!(left, right);
    assert_eq!(left, derive_id(derive_id(ROOT_SCOPE, "left"), "label"));
}

#[test]
fn new_child_logs_its_insertion_and_the_rotation() {
    let mut root = new_root();
    let mut state = UiState::new();
    frame(&mut root, &mut state, &["A", "B", "C"]);
    root.parts().1.take_ops();
    let a = derive_id(ROOT_SCOPE, "A");
    let x = derive_id(ROOT_SCOPE, "X");
    let mut ui = UiContainer::new_root(7, &mut root, &mut state);
    declare_texts(&mut ui, &["X"]);
    assert_eq!(
        ui.layout.take_ops(),
        vec![
            LayoutOp::Insert { child: x, index: 0 },
            LayoutOp::Remove { child: a },
            LayoutOp::Insert { child: a, index: 3 },
        ]
    );
    // the node that stood last needs no rotation
    declare_texts(&mut ui, &["B", "C"]);
    assert!(ui.layout.take_ops().is_empty());
    let y = derive_id(ROOT_SCOPE, "Y");
    declare_texts(&mut ui, &["Y"]);
    assert_eq!(ui.layout.take_ops(), vec![LayoutOp::Insert { child: y, index: 3 }]);
    assert_eq!(ui.layout.order(), ids(&["X", "B", "C", "Y", "A"]));
    ui.finish();
    assert_eq!(root.parts().1.take_ops(), vec![LayoutOp::Remove { child: a }]);
}

#[test]
fn appended_child_logs_one_insertion() {
    let mut root = new_root();
    let mut state = UiState::new();
    frame(&mut root, &mut state, &["A"]);
    root.parts().1.take_ops();
    frame(&mut root, &mut state, &["A", "B"]);
    let b = derive_id(ROOT_SCOPE, "B");
    assert_eq!(root.parts().1.take_ops(), vec![LayoutOp::Insert { child: b, index: 1 }]);
}
