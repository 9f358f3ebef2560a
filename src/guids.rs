//! Lists of guids: membership, selection and removal that keep the order
//! of creation, and the count of enemy bullets.

use vstd::prelude::*;
use crate::gamestate::{bullet_listed, bullet_unlisted, foes, listed, ordered_by, unlisted, BulletTag};
use crate::player::Team;

verus! {

/// Whether `x` is in `v`.
pub fn holds(v: &Vec<u64>, x: u64) -> (r: bool)
    ensures
        r == v@.contains(x),
{
    let mut i: usize = 0;
    while i < v.len()
        invariant
            i <= v.len(),
            forall|j: int| 0 <= j < i ==> v@[j] != x,
        decreases v.len() - i,
    {
        if v[i] == x {
            assert(v@[i as int] == x);
            return true;
        }
        i = i + 1;
    }
    false
}

/// Filtering keeps the items in order, and keeps no item that was not there.
pub proof fn lemma_filter_ordered<A>(s: Seq<A>, key: spec_fn(A) -> int, p: spec_fn(A) -> bool)
    requires
        ordered_by(s, key),
    ensures
        ordered_by(s.filter(p), key),
        forall|x: A| #[trigger] s.filter(p).contains(x) ==> s.contains(x),
    decreases s.len(),
{
    reveal(Seq::filter);
    if s.len() > 0 {
        let t = s.drop_last();
        assert(ordered_by(t, key));
        lemma_filter_ordered(t, key, p);
        let f = t.filter(p);
        assert forall|x: A| f.contains(x) implies s.contains(x) && key(x) < key(s.last()) by {
            assert(t.filter(p).contains(x));
            assert(t.contains(x));
            let k = choose|k: int| 0 <= k < t.len() && t[k] == x;
            assert(s[k] == x);
        }
        if p(s.last()) {
            let g = f.push(s.last());
            assert forall|i: int, j: int| 0 <= i < j < g.len() implies key(g[i]) < key(g[j]) by {
                if j == g.len() - 1 {
                    assert(f.contains(f[i]));
                }
            }
            assert forall|x: A| g.contains(x) implies s.contains(x) by {
                let k = choose|k: int| 0 <= k < g.len() && g[k] == x;
                if k < f.len() {
                    assert(f.contains(f[k]));
                } else {
                    assert(s[s.len() - 1] == x);
                }
            }
        }
    }
}

/// The guids of `s` that `out` does not list, in their order.
pub fn keep_unlisted(s: &Vec<u64>, out: &Vec<u64>) -> (r: Vec<u64>)
    ensures
        r@ == s@.filter(unlisted(out@)),
{
    let mut r: Vec<u64> = Vec::new();
    let mut i: usize = 0;
    while i < s.len()
        invariant
            i <= s.len(),
            r@ == s@.take(i as int).filter(unlisted(out@)),
        decreases s.len() - i,
    {
        let x = s[i];
        proof {
            reveal(Seq::filter);
            assert(s@.take(i + 1).drop_last() =~= s@.take(i as int));
            assert(s@.take(i + 1).last() == x);
        }
        if !holds(out, x) {
            r.push(x);
        }
        i = i + 1;
    }
    assert(s@.take(s@.len() as int) =~= s@);
    r
}

/// The bullets of `s` whose guid `out` does not list, in their order.
pub fn keep_unlisted_bullets(s: &Vec<BulletTag>, out: &Vec<u64>) -> (r: Vec<BulletTag>)
    ensures
        r@ == s@.filter(bullet_unlisted(out@)),
{
    let mut r: Vec<BulletTag> = Vec::new();
    let mut i: usize = 0;
    while i < s.len()
        invariant
            i <= s.len(),
            r@ == s@.take(i as int).filter(bullet_unlisted(out@)),
        decreases s.len() - i,
    {
        let b = s[i];
        proof {
            reveal(Seq::filter);
            assert(s@.take(i + 1).drop_last() =~= s@.take(i as int));
            assert(s@.take(i + 1).last() == b);
        }
        if !holds(out, b.guid) {
            r.push(b);
        }
        i = i + 1;
    }
    assert(s@.take(s@.len() as int) =~= s@);
    r
}

/// The guids of `s` that `hits` lists, in their order.
pub fn keep_listed(s: &Vec<u64>, hits: &Vec<u64>) -> (r: Vec<u64>)
    ensures
        r@ == s@.filter(listed(hits@)),
{
    let mut r: Vec<u64> = Vec::new();
    let mut i: usize = 0;
    while i < s.len()
        invariant
            i <= s.len(),
            r@ == s@.take(i as int).filter(listed(hits@)),
        decreases s.len() - i,
    {
        let x = s[i];
        proof {
            reveal(Seq::filter);
            assert(s@.take(i + 1).drop_last() =~= s@.take(i as int));
            assert(s@.take(i + 1).last() == x);
        }
        if holds(hits, x) {
            r.push(x);
        }
        i = i + 1;
    }
    assert(s@.take(s@.len() as int) =~= s@);
    r
}

/// The bullets of `s` whose guid `hits` lists, in their order.
pub fn keep_listed_bullets(s: &Vec<BulletTag>, hits: &Vec<u64>) -> (r: Vec<BulletTag>)
    ensures
        r@ == s@.filter(bullet_listed(hits@)),
{
    let mut r: Vec<BulletTag> = Vec::new();
    let mut i: usize = 0;
    while i < s.len()
        invariant
            i <= s.len(),
            r@ == s@.take(i as int).filter(bullet_listed(hits@)),
        decreases s.len() - i,
    {
        let b = s[i];
        proof {
            reveal(Seq::filter);
            assert(s@.take(i + 1).drop_last() =~= s@.take(i as int));
            assert(s@.take(i + 1).last() == b);
        }
        if holds(hits, b.guid) {
            r.push(b);
        }
        i = i + 1;
    }
    assert(s@.take(s@.len() as int) =~= s@);
    r
}

/// Splitting by a predicate and by its negation shares out every item.
pub proof fn lemma_filter_split<A>(s: Seq<A>, p: spec_fn(A) -> bool, q: spec_fn(A) -> bool)
    requires
        forall|x: A| #[trigger] q(x) == !p(x),
    ensures
        s.filter(p).len() + s.filter(q).len() == s.len(),
    decreases s.len(),
{
    reveal(Seq::filter);
    if s.len() > 0 {
        lemma_filter_split(s.drop_last(), p, q);
        assert(q(s.last()) == !p(s.last()));
    }
}

/// How many bullets of `bs` belong to a team other than `victim`.
pub fn count_foes(bs: &Vec<BulletTag>, victim: Team) -> (n: usize)
    ensures
        n == foes(bs@, victim),
        n <= bs@.len(),
{
    let mut n: usize = 0;
    let mut i: usize = 0;
    while i < bs.len()
        invariant
            i <= bs.len(),
            n <= i,
            n == foes(bs@.take(i as int), victim),
        decreases bs.len() - i,
    {
        assert(bs@.take(i + 1).drop_last() =~= bs@.take(i as int));
        assert(bs@.take(i + 1).last() == bs@[i as int]);
        if bs[i].team != victim {
            n = n + 1;
        }
        i = i + 1;
    }
    assert(bs@.take(bs@.len() as int) =~= bs@);
    n
}

} // verus!
