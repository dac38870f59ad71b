//! Randomness at the engine's edge.  The only unverified step is drawing a
//! number from the thread-local generator; everything built on top — ranged
//! draws and the Fisher-Yates shuffle — is verified against it.

use vstd::prelude::*;

verus! {

/// Relies on rand::Rng::gen_range over `0..bound` with rand::thread_rng:
/// it returns a value of the given half-open range, and panics only on an
/// empty range, which the precondition rules out.
#[verifier::external_body]
fn rand_below(bound: usize) -> (r: usize)
    requires
        bound > 0,
    ensures
        r < bound,
{
    <rand::rngs::ThreadRng as rand::Rng>::gen_range(&mut rand::thread_rng(), 0..bound)
}

/// Relies on slice::swap: it exchanges the elements at the two indices and
/// panics only out of bounds, which the precondition rules out.
#[verifier::external_body]
pub(crate) fn vec_swap<T>(v: &mut Vec<T>, i: usize, j: usize)
    requires
        i < old(v)@.len(),
        j < old(v)@.len(),
    ensures
        final(v)@ == old(v)@.update(i as int, old(v)@[j as int]).update(j as int, old(v)@[i as int]),
{
    v.swap(i, j);
}

/// Draws a number from the inclusive range `min..=max`.
pub fn rand_in_range(min: usize, max: usize) -> (r: usize)
    requires
        min <= max,
        max < usize::MAX,
    ensures
        min <= r <= max,
{
    min + rand_below(max - min + 1)
}

/// Randomly reorders a buffer with a [Fisher-Yates
/// shuffle](https://en.wikipedia.org/wiki/Fisher-Yates_shuffle); the result
/// holds exactly the original elements.
pub fn shuffle<T>(v: &mut Vec<T>)
    ensures
        final(v)@.to_multiset() == old(v)@.to_multiset(),
        final(v)@.len() == old(v)@.len(),
{
    broadcast use vstd::seq_lib::group_seq_properties;

    let n = v.len();
    if n < 2 {
        return ;
    }
    let mut i: usize = 1;
    while i < n
        invariant
            n == v@.len(),
            1 <= i <= n,
            v@.to_multiset() == old(v)@.to_multiset(),
        decreases n - i,
    {
        let j = rand_below(i + 1);
        proof {
            lemma_swap_preserves_multiset(v@, i as int, j as int);
        }
        vec_swap(v, i, j);
        i += 1;
    }
}

/// Exchanging two positions of a sequence leaves its multiset unchanged.
proof fn lemma_swap_preserves_multiset<T>(s: Seq<T>, i: int, j: int)
    requires
        0 <= i < s.len(),
        0 <= j < s.len(),
    ensures
        s.update(i, s[j]).update(j, s[i]).to_multiset() == s.to_multiset(),
{
    broadcast use vstd::seq_lib::to_multiset_update;
    broadcast use vstd::seq_lib::group_to_multiset_ensures;

    let s1 = s.update(i, s[j]);
    let s2 = s1.update(j, s[i]);
    if i == j {
        assert(s2 =~= s);
    } else {
        assert(s1[j] == s[j]);
        assert(s1.to_multiset() == s.to_multiset().insert(s[j]).remove(s[i]));
        assert(s2.to_multiset() == s1.to_multiset().insert(s[i]).remove(s1[j]));
        assert(s2.to_multiset() =~= s.to_multiset());
    }
}

/// Multiset-equal sequences stay multiset-equal under element-wise mapping.
pub proof fn lemma_map_values_multiset<A, B>(s1: Seq<A>, s2: Seq<A>, f: spec_fn(A) -> B)
    requires
        s1.to_multiset() == s2.to_multiset(),
    ensures
        s1.map_values(f).to_multiset() == s2.map_values(f).to_multiset(),
    decreases s1.len(),
{
    broadcast use vstd::seq_lib::group_to_multiset_ensures;
    broadcast use vstd::multiset::group_multiset_axioms;

    if s1.len() == 0 {
        assert(s1.to_multiset().len() == 0);
        assert(s2.to_multiset().len() == 0);
        assert(s2.len() == 0);
        assert(s1.map_values(f) =~= s2.map_values(f));
    } else {
        let x = s1[0];
        assert(s1.contains(x));
        assert(s2.to_multiset().count(x) > 0);
        assert(s2.contains(x));
        let j = choose|j: int| 0 <= j < s2.len() && s2[j] == x;
        let r1 = s1.remove(0);
        let r2 = s2.remove(j);
        assert(r1.to_multiset() == s1.to_multiset().remove(x));
        assert(r2.to_multiset() == s2.to_multiset().remove(x));
        lemma_map_values_multiset(r1, r2, f);
        assert(s1.map_values(f).remove(0) =~= r1.map_values(f));
        assert(s2.map_values(f).remove(j) =~= r2.map_values(f));
        assert(s1.map_values(f).remove(0).to_multiset() == s1.map_values(f).to_multiset().remove(
            s1.map_values(f)[0],
        ));
        assert(s2.map_values(f).remove(j).to_multiset() == s2.map_values(f).to_multiset().remove(
            s2.map_values(f)[j],
        ));
        let m1 = s1.map_values(f).to_multiset();
        let m2 = s2.map_values(f).to_multiset();
        assert(s1.map_values(f)[0] == f(x));
        assert(s2.map_values(f)[j] == f(x));
        assert(s1.map_values(f).contains(f(x)));
        assert(s2.map_values(f).contains(f(x)));
        assert(m1.count(f(x)) > 0);
        assert(m2.count(f(x)) > 0);
        assert(m1.remove(f(x)) == m2.remove(f(x)));
        assert forall|e: B| m1.count(e) == m2.count(e) by {
            if e == f(x) {
                assert(m1.count(e) == m1.remove(f(x)).count(e) + 1);
                assert(m2.count(e) == m2.remove(f(x)).count(e) + 1);
            } else {
                assert(m1.count(e) == m1.remove(f(x)).count(e));
                assert(m2.count(e) == m2.remove(f(x)).count(e));
            }
        }
        assert(m1 =~= m2);
    }
}

} // verus!

