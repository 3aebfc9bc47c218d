//! Sequences in which nothing stands twice, and what inserting and removing
//! does to them.

use vstd::prelude::*;

verus! {

/// `s` without `x`.
pub open spec fn without<A>(s: Seq<A>, x: A) -> Seq<A> {
    if s.contains(x) {
        s.remove(s.index_of(x))
    } else {
        s
    }
}

/// What `without` leaves of a sequence in which nothing stands twice.
pub proof fn lemma_without<A>(s: Seq<A>, x: A)
    requires
        s.no_duplicates(),
    ensures
        without(s, x).no_duplicates(),
        !without(s, x).contains(x),
        forall|y: A| #[trigger] without(s, x).contains(y) <==> (s.contains(y) && y != x),
        without(s, x).len() == if s.contains(x) { s.len() - 1 } else { s.len() as int },
{
    if s.contains(x) {
        let i = s.index_of(x);
        let r = s.remove(i);
        s.remove_ensures(i);
        assert forall|y: A| #[trigger] r.contains(y) <==> (s.contains(y) && y != x) by {
            if r.contains(y) {
                let k = choose|k: int| 0 <= k < r.len() && r[k] == y;
                if k < i {
                    assert(s[k] == y);
                } else {
                    assert(s[k + 1] == y);
                }
            }
            if s.contains(y) && y != x {
                let k = choose|k: int| 0 <= k < s.len() && s[k] == y;
                if k < i {
                    assert(r[k] == y);
                } else {
                    assert(r[k - 1] == y);
                }
            }
        }
        assert forall|a: int, b: int| 0 <= a < r.len() && 0 <= b < r.len() && a != b implies r[a]
            != r[b] by {
            let a2 = if a < i { a } else { a + 1 };
            let b2 = if b < i { b } else { b + 1 };
            assert(r[a] == s[a2]);
            assert(r[b] == s[b2]);
        }
    }
}

/// What a sequence holds once `x` was inserted at `i`.
pub proof fn lemma_insert<A>(s: Seq<A>, i: int, x: A)
    requires
        0 <= i <= s.len(),
    ensures
        forall|y: A| #[trigger] s.insert(i, x).contains(y) <==> (s.contains(y) || y == x),
        s.no_duplicates() && !s.contains(x) ==> s.insert(i, x).no_duplicates(),
{
    let r = s.insert(i, x);
    s.insert_ensures(i, x);
    assert forall|y: A| #[trigger] r.contains(y) <==> (s.contains(y) || y == x) by {
        if r.contains(y) {
            let k = choose|k: int| 0 <= k < r.len() && r[k] == y;
            if k < i {
                assert(s[k] == y);
            } else if k > i {
                assert(r[(k - 1) + 1] == s[k - 1]);
            }
        }
        if s.contains(y) {
            let k = choose|k: int| 0 <= k < s.len() && s[k] == y;
            if k < i {
                assert(r[k] == y);
            } else {
                assert(r[k + 1] == y);
            }
        }
        if y == x {
            assert(r[i] == y);
        }
    }
    if s.no_duplicates() && !s.contains(x) {
        assert forall|a: int, b: int| 0 <= a < r.len() && 0 <= b < r.len() && a != b implies r[a]
            != r[b] by {
            let a2 = if a < i { a } else { a - 1 };
            let b2 = if b < i { b } else { b - 1 };
            if a != i {
                assert(r[a] == s[a2]) by {
                    if a > i {
                        assert(r[(a - 1) + 1] == s[a - 1]);
                    }
                }
            }
            if b != i {
                assert(r[b] == s[b2]) by {
                    if b > i {
                        assert(r[(b - 1) + 1] == s[b - 1]);
                    }
                }
            }
        }
    }
}

/// `s` without the `len` items from `pos` on.
pub open spec fn cut<A>(s: Seq<A>, pos: int, len: int) -> Seq<A> {
    s.subrange(0, pos) + s.subrange(pos + len, s.len() as int)
}

/// Cutting items out of a sequence in which nothing stands twice leaves such a
/// sequence, and each item that is left stands where it stood, or `len` places
/// further to the front.
pub proof fn lemma_cut<A>(s: Seq<A>, pos: int, len: int)
    requires
        0 <= pos,
        0 <= len,
        pos + len <= s.len(),
    ensures
        cut(s, pos, len).len() == s.len() - len,
        forall|i: int| 0 <= i < pos ==> #[trigger] cut(s, pos, len)[i] == s[i],
        forall|i: int| pos <= i < s.len() - len ==> #[trigger] cut(s, pos, len)[i] == s[i + len],
        s.no_duplicates() ==> cut(s, pos, len).no_duplicates(),
{
    let r = cut(s, pos, len);
    if s.no_duplicates() {
        assert forall|a: int, b: int| 0 <= a < r.len() && 0 <= b < r.len() && a != b implies r[a]
            != r[b] by {
            let a2 = if a < pos { a } else { a + len };
            let b2 = if b < pos { b } else { b + len };
            assert(r[a] == s[a2]);
            assert(r[b] == s[b2]);
        }
    }
}

} // verus!
