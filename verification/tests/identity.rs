use punchcard::id::{derive_id, hash_bytes, IdStack, HASH_PRIME, KEY_END, ROOT_SCOPE};

#[test]
fn hash_of_nothing_is_the_seed() {
    assert_eq!(hash_bytes(ROOT_SCOPE, &[]), ROOT_SCOPE);
    assert_eq!(hash_bytes(17, &[]), 17);
    assert_eq!(ROOT_SCOPE, 0xcbf2_9ce4_8422_2325);
}

#[test]
fn empty_key_is_hashed_as_its_end_mark() {
    assert_eq!(KEY_END, 0xff);
    assert_eq!(derive_id(ROOT_SCOPE, ""), hash_bytes(ROOT_SCOPE, &[0xff]));
    assert_eq!(derive_id(ROOT_SCOPE, ""), 0xaf64_724c_8602_eb6e);
}

#[test]
fn hash_of_one_byte_is_one_step() {
    let expected = (ROOT_SCOPE ^ 0x61).wrapping_mul(HASH_PRIME);
    assert_eq!(hash_bytes(ROOT_SCOPE, &[0x61]), expected);
    assert_eq!(expected, 0xaf63_dc4c_8601_ec8c);
}

#[test]
fn hash_matches_known_values() {
    assert_eq!(hash_bytes(ROOT_SCOPE, b"a"), 0xaf63_dc4c_8601_ec8c);
    assert_eq!(hash_bytes(ROOT_SCOPE, b"foobar"), 0x8594_4171_f739_67e8);
}

#[test]
fn key_is_hashed_with_its_end_mark() {
    assert_eq!(derive_id(ROOT_SCOPE, "a"), hash_bytes(ROOT_SCOPE, &[0x61, 0xff]));
    assert_eq!(derive_id(ROOT_SCOPE, "a"), 0x089b_c907_b544_c769);
    assert_eq!(derive_id(ROOT_SCOPE, "foobar"), 0x3452_4ba7_168a_2c15);
    assert_eq!(derive_id(ROOT_SCOPE, "root"), 0x4dd1_5746_1dbb_678e);
    assert_eq!(derive_id(ROOT_SCOPE, "hello"), 0xa9bd_73cc_a220_c59c);
}

#[test]
fn keys_of_a_path_do_not_run_together() {
    let ab = derive_id(ROOT_SCOPE, "ab");
    let a = derive_id(ROOT_SCOPE, "a");
    assert_ne!(derive_id(ab, "c"), derive_id(a, "bc"));
    assert_ne!(derive_id(ab, "c"), derive_id(ROOT_SCOPE, "abc"));
    assert_ne!(derive_id(a, ""), derive_id(ROOT_SCOPE, "a"));
    // the whole path is hashed as one run of bytes
    assert_eq!(derive_id(ab, "c"), hash_bytes(ROOT_SCOPE, &[0x61, 0x62, 0xff, 0x63, 0xff]));
}

#[test]
fn hash_reads_utf8_bytes() {
    assert_eq!(derive_id(ROOT_SCOPE, "\u{e9}"), hash_bytes(ROOT_SCOPE, &[0xc3, 0xa9, 0xff]));
    assert_eq!(derive_id(ROOT_SCOPE, "\u{e9}"), 0x5fec_201c_1dfc_a99a);
}

#[test]
fn child_scope_is_seeded_by_parent() {
    let root = derive_id(ROOT_SCOPE, "root");
    assert_eq!(derive_id(root, "hello"), 0xa634_15a8_326f_2343);
    assert_eq!(derive_id(root, "world"), 0x8020_d45b_3b28_2107);
    assert_ne!(derive_id(root, "hello"), derive_id(ROOT_SCOPE, "hello"));
}

#[test]
fn hashing_in_two_steps_is_hashing_at_once() {
    let whole = hash_bytes(5, b"abcdef");
    let halves = hash_bytes(hash_bytes(5, b"abc"), b"def");
    assert_eq!(whole, halves);
}

#[test]
fn empty_stack_has_root_scope() {
    let stack = IdStack::new();
    assert_eq!(stack.depth(), 0);
    assert_eq!(stack.current_id(), ROOT_SCOPE);
}

#[test]
fn stack_with_root_starts_there() {
    let mut stack = IdStack::with_root(42);
    assert_eq!(stack.depth(), 1);
    assert_eq!(stack.current_id(), 42);
    let id = stack.push_id("x");
    assert_eq!(id, derive_id(42, "x"));
}

#[test]
fn push_derives_from_current_scope() {
    let mut stack = IdStack::new();
    let root = stack.push_id("root");
    assert_eq!(root, 0x4dd1_5746_1dbb_678e);
    assert_eq!(stack.depth(), 1);
    assert_eq!(stack.current_id(), root);
    let hello = stack.push_id("hello");
    assert_eq!(hello, 0xa634_15a8_326f_2343);
    assert_eq!(stack.depth(), 2);
    assert_eq!(stack.current_id(), hello);
}

#[test]
fn pop_restores_parent_scope() {
    let mut stack = IdStack::new();
    let root = stack.push_id("root");
    let hello = stack.push_id("hello");
    stack.pop_id();
    assert_eq!(stack.current_id(), root);
    let world = stack.push_id("world");
    assert_eq!(world, 0x8020_d45b_3b28_2107);
    assert_ne!(world, hello);
    stack.pop_id();
    stack.pop_id();
    assert_eq!(stack.depth(), 0);
    assert_eq!(stack.current_id(), ROOT_SCOPE);
}

#[test]
fn same_keys_give_same_ids_in_every_frame() {
    let keys = ["root", "panel", "slider", "knob"];
    let mut first = Vec::new();
    let mut stack = IdStack::new();
    for key in keys.iter() {
        first.push(stack.push_id(key));
    }
    // another traversal, after unrelated work on another stack
    let mut other = IdStack::new();
    other.push_id("noise");
    other.pop_id();
    let mut second = Vec::new();
    for key in keys.iter() {
        second.push(other.push_id(key));
    }
    assert_eq!(first, second);
}

#[test]
fn sibling_keys_give_distinct_ids() {
    let mut stack = IdStack::new();
    stack.push_id("root");
    let a = stack.push_id("a");
    stack.pop_id();
    let b = stack.push_id("b");
    stack.pop_id();
    let a_again = stack.push_id("a");
    assert_ne!(a, b);
    assert_eq!(a, a_again);
}
