//! Item identifiers and the identity stack.
//!
//! An item is identified by the sequence of string keys that leads to it from
//! the root. The identifier of a scope is a 64-bit FNV-1a hash of the key's
//! UTF-8 bytes and a byte that ends the key, seeded with the identifier of
//! the enclosing scope. So it is the hash of the keys along the path, each
//! with its end mark, and depends on nothing else.

use vstd::prelude::*;
use vstd::utf8::encode_utf8;

verus! {

/// Identifier of an item: unique among the children of one parent.
pub type ItemID = u64;

/// Scope identifier of the empty path (the FNV-1a offset basis).
pub const ROOT_SCOPE: u64 = 0xcbf2_9ce4_8422_2325;

/// Multiplier of the FNV-1a hash.
pub const HASH_PRIME: u64 = 0x0000_0100_0000_01b3;

/// The byte that ends a key. It occurs in no UTF-8 text, so that no two
/// paths are written with the same bytes.
pub const KEY_END: u8 = 0xff;

/// One step of the hash: folds the byte `b` into the state `h`.
pub open spec fn mix(h: u64, b: u8) -> u64 {
    (h ^ (b as u64)).wrapping_mul(HASH_PRIME)
}

/// The hash state after folding `bytes`, first to last, into `h`.
pub open spec fn fold_bytes(h: u64, bytes: Seq<u8>) -> u64
    decreases bytes.len(),
{
    if bytes.len() == 0 {
        h
    } else {
        mix(fold_bytes(h, bytes.drop_last()), bytes.last())
    }
}

/// Identifier of the scope reached from `scope` through `key`.
pub open spec fn child_id(scope: ItemID, key: Seq<char>) -> ItemID {
    mix(fold_bytes(scope, encode_utf8(key)), KEY_END)
}

/// The bytes that `path` is hashed as: the UTF-8 bytes of each key, and the
/// end mark behind each.
pub open spec fn path_bytes(path: Seq<Seq<char>>) -> Seq<u8>
    decreases path.len(),
{
    if path.len() == 0 {
        Seq::empty()
    } else {
        path_bytes(path.drop_last()) + encode_utf8(path.last()).push(KEY_END)
    }
}

/// Identifier of the scope reached from `root` along `path`.
pub open spec fn path_id(root: ItemID, path: Seq<Seq<char>>) -> ItemID
    decreases path.len(),
{
    if path.len() == 0 {
        root
    } else {
        child_id(path_id(root, path.drop_last()), path.last())
    }
}

/// The scopes that pushing `keys`, in order, adds on top of `scope`.
pub open spec fn pushed_scopes(scope: ItemID, keys: Seq<Seq<char>>) -> Seq<ItemID> {
    Seq::new(keys.len(), |i: int| path_id(scope, keys.take(i + 1)))
}

/// The scope that a key is combined with when `stack` are the open scopes.
pub open spec fn scope_of(stack: Seq<ItemID>) -> ItemID {
    if stack.len() == 0 {
        ROOT_SCOPE
    } else {
        stack.last()
    }
}

/// The open scopes after `keys` were pushed, in order, on `stack`.
pub open spec fn stack_after(stack: Seq<ItemID>, keys: Seq<Seq<char>>) -> Seq<ItemID>
    decreases keys.len(),
{
    if keys.len() == 0 {
        stack
    } else {
        let before = stack_after(stack, keys.drop_last());
        before.push(child_id(scope_of(before), keys.last()))
    }
}

/// Folds `bytes` into the hash state `seed`.
pub fn hash_bytes(seed: u64, bytes: &[u8]) -> (h: u64)
    ensures
        h == fold_bytes(seed, bytes@),
{
    let mut h: u64 = seed;
    let mut i: usize = 0;
    while i < bytes.len()
        invariant
            i <= bytes.len(),
            h == fold_bytes(seed, bytes@.take(i as int)),
        decreases bytes.len() - i,
    {
        proof {
            assert(bytes@.take(i + 1).drop_last() =~= bytes@.take(i as int));
        }
        h = (h ^ (bytes[i] as u64)).wrapping_mul(HASH_PRIME);
        i += 1;
    }
    proof {
        assert(bytes@.take(bytes.len() as int) =~= bytes@);
    }
    h
}

/// Identifier of the scope reached from `scope` through `key`.
pub fn derive_id(scope: ItemID, key: &str) -> (id: ItemID)
    ensures
        id == child_id(scope, key@),
{
    let h: u64 = hash_bytes(scope, key.as_bytes());
    (h ^ (KEY_END as u64)).wrapping_mul(HASH_PRIME)
}

/// The stack of scopes that are open during one traversal.
pub struct IdStack {
    scopes: Vec<ItemID>,
}

impl View for IdStack {
    type V = Seq<ItemID>;

    closed spec fn view(&self) -> Seq<ItemID> {
        self.scopes@
    }
}

impl IdStack {
    /// The scope that the next key is combined with.
    pub open spec fn current(&self) -> ItemID {
        scope_of(self@)
    }

    /// A stack with no open scope.
    pub fn new() -> (s: IdStack)
        ensures
            s@ == Seq::<ItemID>::empty(),
    {
        IdStack { scopes: Vec::new() }
    }

    /// A stack whose only open scope is `root`.
    pub fn with_root(root: ItemID) -> (s: IdStack)
        ensures
            s@ == seq![root],
    {
        let mut scopes: Vec<ItemID> = Vec::new();
        scopes.push(root);
        IdStack { scopes }
    }

    /// Number of open scopes.
    pub fn depth(&self) -> (n: usize)
        ensures
            n == self@.len(),
    {
        self.scopes.len()
    }

    /// The scope that the next key is combined with.
    pub fn current_id(&self) -> (id: ItemID)
        ensures
            id == self.current(),
    {
        let n: usize = self.scopes.len();
        if n == 0 {
            ROOT_SCOPE
        } else {
            self.scopes[n - 1]
        }
    }

    /// Opens the scope reached through `key` and returns its identifier.
    pub fn push_id(&mut self, key: &str) -> (id: ItemID)
        ensures
            id == child_id(old(self).current(), key@),
            final(self)@ == old(self)@.push(id),
            final(self)@ == stack_after(old(self)@, seq![key@]),
    {
        let id: ItemID = derive_id(self.current_id(), key);
        proof {
            reveal_with_fuel(stack_after, 2);
        }
        self.scopes.push(id);
        id
    }

    /// Closes the innermost open scope.
    pub fn pop_id(&mut self)
        requires
            old(self)@.len() > 0,
        ensures
            final(self)@ == old(self)@.drop_last(),
    {
        self.scopes.pop();
    }
}

} // verus!
