//! Record identity, the total order of the persisted files, and sorting.

use vstd::prelude::*;
use vstd::multiset::Multiset;
use vstd::seq_lib::group_to_multiset_ensures;

verus! {

/// Code-point lexicographic order on character sequences (the order of
/// `String`'s `Ord`).
pub open spec fn chars_lt(a: Seq<char>, b: Seq<char>) -> bool
    decreases a.len(),
{
    if a.len() == 0 {
        b.len() > 0
    } else if b.len() == 0 {
        false
    } else if a[0] != b[0] {
        a[0] < b[0]
    } else {
        chars_lt(a.drop_first(), b.drop_first())
    }
}

pub proof fn lemma_chars_lt_irreflexive(a: Seq<char>)
    ensures
        !chars_lt(a, a),
    decreases a.len(),
{
    if a.len() > 0 {
        lemma_chars_lt_irreflexive(a.drop_first());
    }
}

pub proof fn lemma_chars_lt_transitive(a: Seq<char>, b: Seq<char>, c: Seq<char>)
    requires
        chars_lt(a, b),
        chars_lt(b, c),
    ensures
        chars_lt(a, c),
    decreases a.len(),
{
    if a.len() > 0 && b.len() > 0 && c.len() > 0 && a[0] == b[0] && b[0] == c[0] {
        lemma_chars_lt_transitive(a.drop_first(), b.drop_first(), c.drop_first());
    }
}

proof fn lemma_chars_lt_common_prefix(a: Seq<char>, b: Seq<char>, i: int)
    requires
        0 <= i <= a.len(),
        i <= b.len(),
        forall|k: int| 0 <= k < i ==> a[k] == b[k],
    ensures
        chars_lt(a, b) == chars_lt(a.skip(i), b.skip(i)),
    decreases i,
{
    if i > 0 {
        lemma_chars_lt_common_prefix(a.drop_first(), b.drop_first(), i - 1);
        assert(a.drop_first().skip(i - 1) =~= a.skip(i));
        assert(b.drop_first().skip(i - 1) =~= b.skip(i));
    } else {
        assert(a.skip(0) =~= a);
        assert(b.skip(0) =~= b);
    }
}

/// Whether `a` comes before `b` in code-point lexicographic order.
pub fn chars_less(a: &[char], b: &[char]) -> (r: bool)
    ensures
        r == chars_lt(a@, b@),
{
    let mut i: usize = 0;
    while i < a.len() && i < b.len() && a[i] == b[i]
        invariant
            i <= a.len(),
            i <= b.len(),
            forall|k: int| 0 <= k < i ==> a@[k] == b@[k],
        decreases a.len() - i,
    {
        i = i + 1;
    }
    proof {
        lemma_chars_lt_common_prefix(a@, b@, i as int);
    }
    if i == a.len() {
        i < b.len()
    } else if i == b.len() {
        false
    } else {
        a[i] < b[i]
    }
}

/// Applying a function to the elements of two sequences that hold the same
/// elements gives sequences that hold the same elements.
pub proof fn lemma_map_values_to_multiset<A, B>(s1: Seq<A>, s2: Seq<A>, f: spec_fn(A) -> B)
    requires
        s1.to_multiset() == s2.to_multiset(),
    ensures
        s1.map_values(f).to_multiset() == s2.map_values(f).to_multiset(),
    decreases s1.len(),
{
    broadcast use group_to_multiset_ensures;

    s1.to_multiset_ensures();
    s2.to_multiset_ensures();
    if s1.len() == 0 {
        assert(s2.len() == 0);
        assert(s1.map_values(f) =~= s2.map_values(f));
    } else {
        let x = s1.last();
        assert(s1.contains(x)) by {
            assert(s1[s1.len() - 1] == x);
        }
        assert(s1.to_multiset().count(x) > 0);
        assert(s2.to_multiset().count(x) > 0);
        assert(s2.contains(x));
        let i = choose|i: int| 0 <= i < s2.len() && s2[i] == x;
        assert(s1.remove(s1.len() - 1) =~= s1.drop_last());
        lemma_map_values_to_multiset(s1.drop_last(), s2.remove(i), f);
        let m1 = s1.map_values(f);
        let m2 = s2.map_values(f);
        assert(m1 =~= s1.drop_last().map_values(f).push(f(x)));
        s1.drop_last().map_values(f).to_multiset_ensures();
        assert(m2.remove(i) =~= s2.remove(i).map_values(f));
        m2.to_multiset_ensures();
        assert(m2[i] == f(x));
        assert(m2.to_multiset().count(f(x)) > 0);
        assert(m2.to_multiset() =~= m2.remove(i).to_multiset().insert(f(x)));
    }
}

/// A record of a configuration file: it has an identifier, and the file
/// lists its records in a strict order.
pub trait Record: Sized {
    /// The identifier; a merge tells records apart by it alone.
    spec fn key(&self) -> Seq<char>;

    /// Whether `self` is listed before `other` in a persisted file.
    spec fn goes_before(&self, other: &Self) -> bool;

    proof fn lemma_goes_before_irreflexive(a: &Self)
        ensures
            !a.goes_before(a),
    ;

    proof fn lemma_goes_before_transitive(a: &Self, b: &Self, c: &Self)
        requires
            a.goes_before(b),
            b.goes_before(c),
        ensures
            a.goes_before(c),
    ;

    fn id(&self) -> (r: &String)
        ensures
            r@ == self.key(),
    ;

    fn precedes(&self, other: &Self) -> (r: bool)
        ensures
            r == self.goes_before(other),
    ;
}

/// No record is listed after one that it goes before.
pub open spec fn in_file_order<R: Record>(s: Seq<R>) -> bool {
    forall|i: int, j: int| 0 <= i < j < s.len() ==> !s[j].goes_before(&s[i])
}

/// Puts records into the order of a persisted file, keeping each of them.
pub fn sort_records<R: Record>(v: Vec<R>) -> (r: Vec<R>)
    ensures
        in_file_order(r@),
        r@.to_multiset() == v@.to_multiset(),
{
    broadcast use group_to_multiset_ensures;

    let mut work = v;
    let mut out: Vec<R> = Vec::new();
    proof {
        assert(out@.to_multiset() =~= Multiset::empty());
        assert(out@.to_multiset().add(work@.to_multiset()) =~= v@.to_multiset());
    }
    while work.len() > 0
        invariant
            out@.to_multiset().add(work@.to_multiset()) == v@.to_multiset(),
            in_file_order(out@),
            forall|i: int, j: int|
                #![trigger work@[j], out@[i]]
                0 <= i < out@.len() && 0 <= j < work@.len() ==> !work@[j].goes_before(&out@[i]),
        decreases work.len(),
    {
        let mut m: usize = 0;
        let mut k: usize = 1;
        proof {
            R::lemma_goes_before_irreflexive(&work@[0]);
        }
        while k < work.len()
            invariant
                1 <= k <= work@.len(),
                m < k,
                forall|q: int| 0 <= q < k ==> !(#[trigger] work@[q]).goes_before(&work@[m as int]),
            decreases work.len() - k,
        {
            if work[k].precedes(&work[m]) {
                proof {
                    assert forall|q: int| 0 <= q < k + 1 implies !(#[trigger] work@[q]).goes_before(
                        &work@[k as int],
                    ) by {
                        if q == k {
                            R::lemma_goes_before_irreflexive(&work@[k as int]);
                        } else if work@[q].goes_before(&work@[k as int]) {
                            R::lemma_goes_before_transitive(
                                &work@[q],
                                &work@[k as int],
                                &work@[m as int],
                            );
                        }
                    }
                }
                m = k;
            }
            k = k + 1;
        }
        let ghost before_work = work@;
        let ghost before_out = out@;
        let x = work.remove(m);
        out.push(x);
        proof {
            before_work.to_multiset_ensures();
            before_out.to_multiset_ensures();
            assert(work@.to_multiset() =~= before_work.to_multiset().remove(before_work[m as int]));
            assert(out@.to_multiset() =~= before_out.to_multiset().insert(x));
            assert(out@.to_multiset().add(work@.to_multiset()) =~= v@.to_multiset());
            assert forall|i: int, j: int|
                #![trigger work@[j], out@[i]]
                0 <= i < out@.len() && 0 <= j < work@.len() implies !work@[j].goes_before(
                &out@[i],
            ) by {
                let jj = if j < m { j } else { j + 1 };
                assert(work@[j] == before_work[jj]);
                if i < before_out.len() {
                    assert(out@[i] == before_out[i]);
                }
            }
            assert forall|i: int, j: int|
                #![trigger out@[i], out@[j]]
                0 <= i < j < out@.len() implies !out@[j].goes_before(
                &out@[i],
            ) by {
                if j < before_out.len() {
                    assert(out@[j] == before_out[j]);
                    assert(out@[i] == before_out[i]);
                } else {
                    assert(out@[j] == before_work[m as int]);
                    assert(out@[i] == before_out[i]);
                }
            }
        }
    }
    proof {
        assert(work@.to_multiset() =~= Multiset::empty());
        assert(out@.to_multiset() =~= v@.to_multiset());
    }
    out
}

} // verus!
