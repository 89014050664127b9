//! Small facts about sequences that several proofs share.

use vstd::prelude::*;

verus! {

pub proof fn lemma_prefix_refl<T>(s: Seq<T>)
    ensures
        s.is_prefix_of(s),
{
    assert(s =~= s.subrange(0, s.len() as int));
}

pub proof fn lemma_prefix_push<T>(a: Seq<T>, b: Seq<T>, x: T)
    requires
        a.is_prefix_of(b),
    ensures
        a.is_prefix_of(b.push(x)),
{
    assert(a =~= b.push(x).subrange(0, a.len() as int));
}

pub proof fn lemma_append_push<T>(a: Seq<T>, b: Seq<T>, x: T)
    ensures
        a + b.push(x) == (a + b).push(x),
{
    assert(a + b.push(x) =~= (a + b).push(x));
}

pub proof fn lemma_skip_own_len<T>(s: Seq<T>)
    ensures
        s.skip(s.len() as int) == Seq::<T>::empty(),
{
    assert(s.skip(s.len() as int) =~= Seq::<T>::empty());
}

/// A sequence is a prefix of itself followed by anything.
pub proof fn lemma_prefix_append<T>(a: Seq<T>, b: Seq<T>)
    ensures
        a.is_prefix_of(a + b),
{
    assert(a =~= (a + b).subrange(0, a.len() as int));
}

pub proof fn lemma_prefix_trans<T>(a: Seq<T>, b: Seq<T>, c: Seq<T>)
    requires
        a.is_prefix_of(b),
        b.is_prefix_of(c),
    ensures
        a.is_prefix_of(c),
{
    assert(a =~= c.subrange(0, a.len() as int));
}

/// A prefix agrees with the whole on every index it covers.
pub proof fn lemma_prefix_index<T>(a: Seq<T>, b: Seq<T>, i: int)
    requires
        a.is_prefix_of(b),
        0 <= i < a.len(),
    ensures
        b[i] == a[i],
{
    assert(a[i] == b.subrange(0, a.len() as int)[i]);
}

/// Consuming the front element advances the consumed prefix by one.
pub proof fn lemma_consume_step<T>(s: Seq<T>, c: int)
    requires
        0 <= c < s.len(),
    ensures
        s.skip(c).len() > 0,
        s.skip(c)[0] == s[c],
        s.skip(c).drop_first() == s.skip(c + 1),
        s.take(c + 1) == s.take(c).push(s[c]),
{
    assert(s.skip(c).drop_first() =~= s.skip(c + 1));
    assert(s.take(c + 1) =~= s.take(c).push(s[c]));
}

/// A prefix followed by the rest is the whole.
pub proof fn lemma_prefix_skip_append<T>(a: Seq<T>, b: Seq<T>)
    requires
        a.is_prefix_of(b),
    ensures
        a + b.skip(a.len() as int) == b,
{
    assert(a + b.skip(a.len() as int) =~= b);
}

/// One step of the report-and-forward bookkeeping: when a new item is pushed
/// to both the report log and the forward log, the forward log still equals
/// the old forwards followed by the newly reported items.
pub proof fn lemma_forward_step<T>(f0: Seq<T>, r0: Seq<T>, f: Seq<T>, r: Seq<T>, x: T)
    requires
        r0.is_prefix_of(r),
        f == f0 + r.skip(r0.len() as int),
    ensures
        r0.is_prefix_of(r.push(x)),
        f.push(x) == f0 + r.push(x).skip(r0.len() as int),
{
    lemma_prefix_push(r0, r, x);
    assert(f.push(x) =~= f0 + r.push(x).skip(r0.len() as int));
}

} // verus!
