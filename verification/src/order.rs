//! The order in which one parent's children stand, as plain sequences.
//!
//! Matching a declared child against the children of the previous frame
//! either leaves the order as it is, moves one child to the cursor, or puts a
//! new child there. This file states these three outcomes over sequences
//! and proves what they keep.

use vstd::prelude::*;

verus! {

/// `s` with `a` at position `c`; what stood at `c` stands last.
///
/// With `c` at the end of `s`, `a` is appended.
pub open spec fn rotate_in<A>(s: Seq<A>, c: int, a: A) -> Seq<A> {
    if 0 <= c < s.len() {
        s.update(c, a).push(s[c])
    } else {
        s.push(a)
    }
}

/// `s` with the element at `j` moved to position `c`: it is taken out, the
/// elements behind it move up, and it is rotated in at `c`.
pub open spec fn move_to<A>(s: Seq<A>, j: int, c: int) -> Seq<A> {
    rotate_in(s.remove(j), c, s[j])
}

/// The position of `x` in `s`, where it has one.
pub open spec fn position<A>(s: Seq<A>, x: A) -> Option<int> {
    if s.contains(x) {
        Some(s.index_of(x))
    } else {
        None
    }
}

/// The order of identifiers after a child `id` was declared at cursor `c`:
/// unchanged where `id` stands at `c`, `id` moved to `c` where it stands
/// elsewhere, `id` rotated in at `c` where it is new.
pub open spec fn resolved_ids(ids: Seq<u64>, c: int, id: u64) -> Seq<u64> {
    match position(ids, id) {
        None => rotate_in(ids, c, id),
        Some(j) => if j == c {
            ids
        } else {
            move_to(ids, j, c)
        },
    }
}

/// The order of identifiers after the children `declared`, first to last,
/// were declared from cursor `c` on.
pub open spec fn declared_ids(ids: Seq<u64>, c: int, declared: Seq<u64>) -> Seq<u64>
    decreases declared.len(),
{
    if declared.len() == 0 {
        ids
    } else {
        declared_ids(resolved_ids(ids, c, declared[0]), c + 1, declared.drop_first())
    }
}

/// The order of identifiers after one frame in which `declared` were the
/// children declared: they are matched from cursor 0 on, and what was not
/// declared is pruned.
pub open spec fn frame_ids(ids: Seq<u64>, declared: Seq<u64>) -> Seq<u64> {
    declared_ids(ids, 0, declared).take(declared.len() as int)
}

/// In a sequence without duplicates, `index_of` gives the one position that
/// holds `x`.
pub proof fn lemma_index_of_unique<A>(s: Seq<A>, x: A, i: int)
    requires
        s.no_duplicates(),
        0 <= i < s.len(),
        s[i] == x,
    ensures
        s.contains(x),
        s.index_of(x) == i,
        s.index_of_first(x) == Some(i),
        position(s, x) == Some(i),
{
    s.index_of_first_ensures(x);
}

/// Taking an element out of a sequence without duplicates leaves none, and
/// the element is gone.
pub proof fn lemma_remove_distinct<A>(s: Seq<A>, i: int)
    requires
        s.no_duplicates(),
        0 <= i < s.len(),
    ensures
        s.remove(i).no_duplicates(),
        !s.remove(i).contains(s[i]),
        forall|x: A| x != s[i] ==> (s.remove(i).contains(x) <==> s.contains(x)),
{
    let r = s.remove(i);
    assert forall|x: A| x != s[i] && s.contains(x) implies r.contains(x) by {
        let k = s.index_of(x);
        let moved = if k < i { k } else { k - 1 };
        assert(r[moved] == x);
    }
}

/// The first `n` elements of a sequence without duplicates have none.
pub proof fn lemma_take_distinct<A>(s: Seq<A>, n: int)
    requires
        s.no_duplicates(),
        0 <= n <= s.len(),
    ensures
        s.take(n).no_duplicates(),
{
}

/// Rotating a new element into a sequence without duplicates makes none,
/// and the result holds the new element and what the sequence held.
pub proof fn lemma_rotate_in_distinct<A>(s: Seq<A>, c: int, a: A)
    requires
        s.no_duplicates(),
        0 <= c <= s.len(),
        !s.contains(a),
    ensures
        rotate_in(s, c, a).no_duplicates(),
        rotate_in(s, c, a).len() == s.len() + 1,
        rotate_in(s, c, a)[c] == a,
        forall|x: A| rotate_in(s, c, a).contains(x) <==> (x == a || s.contains(x)),
        forall|k: int| 0 <= k < c ==> rotate_in(s, c, a)[k] == s[k],
{
    let r = rotate_in(s, c, a);
    // every element of `s` stands where it stood, but the one at `c`, which
    // stands last
    assert forall|k: int| 0 <= k < s.len() implies r.contains(#[trigger] s[k]) by {
        if k == c {
            assert(r[s.len() as int] == s[k]);
        } else {
            assert(r[k] == s[k]);
        }
    }
    assert(r[c] == a);
}

/// Moving an element of a sequence without duplicates to the cursor keeps
/// the length, the elements, and what stands before the cursor, where the
/// element stood behind the cursor.
pub proof fn lemma_move_to_distinct<A>(s: Seq<A>, j: int, c: int)
    requires
        s.no_duplicates(),
        0 <= c < j < s.len(),
    ensures
        move_to(s, j, c).no_duplicates(),
        move_to(s, j, c).len() == s.len(),
        move_to(s, j, c)[c] == s[j],
        forall|x: A| move_to(s, j, c).contains(x) <==> s.contains(x),
        forall|k: int| 0 <= k < c ==> move_to(s, j, c)[k] == s[k],
{
    lemma_remove_distinct(s, j);
    lemma_rotate_in_distinct(s.remove(j), c, s[j]);
}

/// What one declared child does to the order: the child stands at the
/// cursor, what stood before the cursor stays, no identifier occurs twice,
/// and nothing is lost.
pub proof fn lemma_resolved_ids(s: Seq<u64>, c: int, id: u64)
    requires
        s.no_duplicates(),
        0 <= c <= s.len(),
        !s.take(c).contains(id),
    ensures
        resolved_ids(s, c, id).no_duplicates(),
        resolved_ids(s, c, id).len() == if s.contains(id) {
            s.len()
        } else {
            s.len() + 1
        },
        c < resolved_ids(s, c, id).len(),
        resolved_ids(s, c, id)[c] == id,
        resolved_ids(s, c, id).take(c) == s.take(c),
        resolved_ids(s, c, id).take(c + 1) == s.take(c).push(id),
        forall|x: u64| resolved_ids(s, c, id).contains(x) <==> (x == id || s.contains(x)),
        position(s, id) matches Some(j) ==> c <= j < s.len() && s[j] == id,
{
    if s.contains(id) {
        let j = s.index_of(id);
        if j < c {
            // then it would stand before the cursor
            assert(s.take(c)[j] == id);
        } else if j > c {
            lemma_move_to_distinct(s, j, c);
        }
    } else {
        lemma_rotate_in_distinct(s, c, id);
    }
}

/// What a run of declared children does to the order: they stand from the
/// cursor on, in the order in which they were declared; what stood before
/// the cursor stays, no identifier occurs twice, and nothing is lost.
pub proof fn lemma_declared_ids(s: Seq<u64>, c: int, declared: Seq<u64>)
    requires
        s.no_duplicates(),
        declared.no_duplicates(),
        0 <= c <= s.len(),
        forall|i: int| 0 <= i < declared.len() ==> !s.take(c).contains(#[trigger] declared[i]),
    ensures
        declared_ids(s, c, declared).no_duplicates(),
        c + declared.len() <= declared_ids(s, c, declared).len(),
        declared_ids(s, c, declared).take(c) == s.take(c),
        declared_ids(s, c, declared).subrange(c, c + declared.len()) == declared,
        forall|x: u64|
            declared_ids(s, c, declared).contains(x) <==> (declared.contains(x) || s.contains(x)),
    decreases declared.len(),
{
    let r = declared_ids(s, c, declared);
    if declared.len() > 0 {
        let rest = declared.drop_first();
        let s1 = resolved_ids(s, c, declared[0]);
        lemma_resolved_ids(s, c, declared[0]);
        // the children that follow are not among the first `c + 1` of `s1`
        assert forall|i: int| 0 <= i < rest.len() implies !s1.take(c + 1).contains(
            #[trigger] rest[i],
        ) by {
            if s1.take(c + 1).contains(rest[i]) {
                // it would be `declared[0]` or one of the first `c` of `s`
                let k = s1.take(c + 1).index_of(rest[i]);
                assert(k < c ==> s.take(c)[k] == rest[i]);
            }
        }
        lemma_declared_ids(s1, c + 1, rest);
        assert forall|i: int| 0 <= i < declared.len() implies r[c + i] == declared[i] by {
            if i == 0 {
                assert(r.take(c + 1)[c] == s1.take(c + 1)[c]);
            } else {
                assert(r.subrange(c + 1, c + 1 + rest.len())[i - 1] == rest[i - 1]);
            }
        }
        assert forall|x: u64| r.contains(x) <==> (declared.contains(x) || s.contains(x)) by {
            if rest.contains(x) {
                assert(declared[rest.index_of(x) + 1] == x);
            }
            if declared.contains(x) && declared[0] != x {
                assert(rest[declared.index_of(x) - 1] == x);
            }
        }
    }
}

} // verus!
