//! Finding the first element of a sequence that meets a condition.

use vstd::prelude::*;

verus! {

/// The position of the first element of `s` for which `hit` holds, or
/// `s.len()` when it holds for none.
pub open spec fn first_index<A>(s: Seq<A>, hit: spec_fn(A) -> bool) -> int
    decreases s.len(),
{
    if s.len() == 0 || hit(s[0]) {
        0
    } else {
        1 + first_index(s.drop_first(), hit)
    }
}

/// `first_index` lies within `0..=s.len()`, points at a hit when it lies
/// inside the sequence, and no hit comes before it.
pub proof fn lemma_first_index<A>(s: Seq<A>, hit: spec_fn(A) -> bool)
    ensures
        0 <= first_index(s, hit) <= s.len(),
        first_index(s, hit) < s.len() ==> hit(s[first_index(s, hit)]),
        forall|k: int| 0 <= k < first_index(s, hit) ==> !hit(#[trigger] s[k]),
    decreases s.len(),
{
    if s.len() == 0 || hit(s[0]) {
    } else {
        let t = s.drop_first();
        lemma_first_index(t, hit);
        assert forall|k: int| 0 <= k < first_index(s, hit) implies !hit(#[trigger] s[k]) by {
            if k > 0 {
                assert(s[k] == t[k - 1]);
            }
        }
    }
}

/// `first_index` is `n` when no hit comes before `n` and `n` is a hit or the
/// end of the sequence.
pub proof fn lemma_first_index_is<A>(s: Seq<A>, hit: spec_fn(A) -> bool, n: int)
    requires
        0 <= n <= s.len(),
        forall|k: int| 0 <= k < n ==> !hit(#[trigger] s[k]),
        n < s.len() ==> hit(s[n]),
    ensures
        first_index(s, hit) == n,
{
    lemma_first_index(s, hit);
    let m = first_index(s, hit);
    if m < n {
        assert(hit(s[m]));
    } else if n < m {
        assert(!hit(s[n]));
    }
}

/// Those of the first `n` elements of `s` for which `keep` holds, in order.
pub open spec fn picked<A>(s: Seq<A>, keep: spec_fn(A) -> bool, n: nat) -> Seq<A>
    decreases n,
{
    if n == 0 || n > s.len() {
        Seq::empty()
    } else if keep(s[n - 1]) {
        picked(s, keep, (n - 1) as nat).push(s[n - 1])
    } else {
        picked(s, keep, (n - 1) as nat)
    }
}

/// What one more element adds to `picked`.
pub proof fn lemma_picked_push<A>(s: Seq<A>, keep: spec_fn(A) -> bool, n: nat)
    requires
        n < s.len(),
    ensures
        picked(s, keep, n + 1) == if keep(s[n as int]) {
            picked(s, keep, n).push(s[n as int])
        } else {
            picked(s, keep, n)
        },
{
}

/// `picked` looks at no element behind the first `n`.
pub proof fn lemma_picked_prefix<A>(s: Seq<A>, t: Seq<A>, keep: spec_fn(A) -> bool, n: nat)
    requires
        n <= s.len(),
        n <= t.len(),
        forall|k: int| 0 <= k < n ==> s[k] == t[k],
    ensures
        picked(s, keep, n) == picked(t, keep, n),
    decreases n,
{
    if n > 0 {
        lemma_picked_prefix(s, t, keep, (n - 1) as nat);
    }
}

/// `keep` holds for every element that `picked` lists.
pub proof fn lemma_picked_kept<A>(s: Seq<A>, keep: spec_fn(A) -> bool, n: nat)
    requires
        n <= s.len(),
    ensures
        forall|k: int|
            0 <= k < picked(s, keep, n).len() ==> keep(#[trigger] picked(s, keep, n)[k]),
    decreases n,
{
    if n > 0 {
        lemma_picked_kept(s, keep, (n - 1) as nat);
        let before = picked(s, keep, (n - 1) as nat);
        assert forall|k: int| 0 <= k < picked(s, keep, n).len() implies keep(
            #[trigger] picked(s, keep, n)[k],
        ) by {
            if k < before.len() {
                assert(picked(s, keep, n)[k] == before[k]);
            }
        }
    }
}

/// What is picked from two sequences in a row is what is picked from the
/// first, followed by what is picked from the second.
pub proof fn lemma_picked_add<A>(s: Seq<A>, t: Seq<A>, keep: spec_fn(A) -> bool)
    ensures
        picked(s + t, keep, (s + t).len()) == picked(s, keep, s.len()) + picked(
            t,
            keep,
            t.len(),
        ),
    decreases t.len(),
{
    if t.len() == 0 {
        assert(s + t =~= s);
        assert(picked(s, keep, s.len()) + picked(t, keep, 0) =~= picked(s, keep, s.len()));
    } else {
        let shorter = t.drop_last();
        lemma_picked_add(s, shorter, keep);
        lemma_picked_prefix(s + t, s + shorter, keep, (s + shorter).len());
        lemma_picked_prefix(t, shorter, keep, shorter.len());
        assert((s + t)[(s + t).len() - 1] == t[t.len() - 1]);
        if keep(t[t.len() - 1]) {
            assert(picked(s + t, keep, (s + t).len()) =~= picked(s, keep, s.len()) + picked(
                t,
                keep,
                t.len(),
            ));
        }
    }
}

} // verus!
