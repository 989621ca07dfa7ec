//! Vectors and the sequences of their elements' views.
use vstd::prelude::*;

verus! {

/// A vector without elements.
pub fn empty<T: DeepView>() -> (v: Vec<T>)
    ensures
        v@ == Seq::<T>::empty(),
        v.deep_view() == Seq::<T::V>::empty(),
{
    let v: Vec<T> = Vec::new();
    assert(v.deep_view() =~= Seq::<T::V>::empty());
    v
}

/// Appends one element.
pub fn put<T: DeepView>(v: &mut Vec<T>, x: T)
    ensures
        final(v)@ == old(v)@.push(x),
        final(v).deep_view() == old(v).deep_view().push(x.deep_view()),
{
    let ghost before = v.deep_view();
    v.push(x);
    assert(v.deep_view() =~= before.push(x.deep_view()));
}

/// The vector with exactly one element.
pub fn one<T: DeepView>(x: T) -> (v: Vec<T>)
    ensures
        v@ == seq![x],
        v.deep_view() == seq![x.deep_view()],
{
    let mut v: Vec<T> = empty();
    put(&mut v, x);
    assert(v@ =~= seq![x]);
    assert(v.deep_view() =~= seq![x.deep_view()]);
    v
}

/// Moves all elements of `tail` to the end of `v`.
pub fn extend<T: DeepView>(v: &mut Vec<T>, tail: Vec<T>)
    ensures
        final(v)@ == old(v)@ + tail@,
        final(v).deep_view() == old(v).deep_view() + tail.deep_view(),
{
    let ghost before = v.deep_view();
    let mut tail = tail;
    let ghost added = tail.deep_view();
    v.append(&mut tail);
    assert(v.deep_view() =~= before + added);
}

/// Takes the first item off a list.
pub fn pull<T: DeepView>(v: &mut Vec<T>) -> (x: T)
    requires
        old(v)@.len() > 0,
    ensures
        x == old(v)@[0],
        final(v)@ == old(v)@.drop_first(),
        x.deep_view() == old(v).deep_view()[0],
        final(v).deep_view() == old(v).deep_view().drop_first(),
        old(v).deep_view().len() == old(v)@.len(),
{
    let ghost before = v.deep_view();
    let x = v.remove(0);
    assert(v@ =~= old(v)@.drop_first());
    assert(v.deep_view() =~= before.drop_first());
    x
}

/// One more element of a prefix.
pub proof fn take_next<A>(s: Seq<A>, i: int)
    requires
        0 <= i < s.len(),
    ensures
        s.take(i + 1) == s.take(i).push(s[i]),
        s.take(i + 1).drop_last() == s.take(i),
        s.take(i + 1).last() == s[i],
{
    assert(s.take(i + 1) =~= s.take(i).push(s[i]));
    assert(s.take(i + 1).drop_last() =~= s.take(i));
}

/// A prefix of full length.
pub proof fn take_all<A>(s: Seq<A>)
    ensures
        s.take(s.len() as int) == s,
{
    assert(s.take(s.len() as int) =~= s);
}

// ---- Slots ----

/// Where the entry with number `key` stands, if there is one.
pub open spec fn slot_at<V>(s: Seq<(u64, V)>, key: u64) -> Option<nat>
    decreases s.len(),
{
    if s.len() == 0 {
        None
    } else if s.last().0 == key {
        Some((s.len() - 1) as nat)
    } else {
        slot_at(s.drop_last(), key)
    }
}

pub fn find_slot<T: DeepView>(list: &Vec<(u64, T)>, key: u64) -> (r: Option<usize>)
    ensures
        match r {
            Some(k) => slot_at(list.deep_view(), key) == Some(k as nat) && k < list@.len()
                && list@[k as int].0 == key,
            None => slot_at(list.deep_view(), key) is None,
        },
{
    let ghost all = list.deep_view();
    let mut i: usize = list.len();
    proof {
        take_all(all);
    }
    while i > 0
        invariant
            i <= list@.len(),
            all == list.deep_view(),
            slot_at(all, key) == slot_at(all.take(i as int), key),
        decreases i,
    {
        i = i - 1;
        proof {
            take_next(all, i as int);
        }
        if list[i].0 == key {
            return Some(i);
        }
    }
    None
}

/// The list with `value` under number `key`; the numbers stay in ascending order.
pub open spec fn with_slot<V>(s: Seq<(u64, V)>, key: u64, value: V) -> Seq<(u64, V)>
    decreases s.len(),
{
    if s.len() == 0 {
        seq![(key, value)]
    } else if s.last().0 < key {
        s.push((key, value))
    } else if s.last().0 == key {
        s.drop_last().push((key, value))
    } else {
        with_slot(s.drop_last(), key, value).push(s.last())
    }
}

pub fn put_slot<T: DeepView>(list: &mut Vec<(u64, T)>, key: u64, value: T)
    ensures
        final(list).deep_view() == with_slot(old(list).deep_view(), key, value.deep_view()),
{
    let ghost before = list.deep_view();
    let ghost v = value.deep_view();
    let mut i: usize = list.len();
    assert(before.take(before.len() as int) =~= before);
    assert(before.skip(before.len() as int) =~= seq![]);
    while i > 0 && list[i - 1].0 > key
        invariant
            i <= list@.len(),
            before == list.deep_view(),
            with_slot(before, key, v) == with_slot(before.take(i as int), key, v) + before.skip(
                i as int,
            ),
        decreases i,
    {
        i = i - 1;
        proof {
            let shorter = before.take(i + 1);
            assert(shorter.drop_last() =~= before.take(i as int));
            assert(shorter.last() == before[i as int]);
            assert(with_slot(before.take(i as int), key, v).push(before[i as int]) + before.skip(
                i + 1,
            ) =~= with_slot(before.take(i as int), key, v) + before.skip(i as int));
        }
    }
    let same = i > 0 && list[i - 1].0 == key;
    if same {
        let _ = list.remove(i - 1);
        list.insert(i - 1, (key, value));
        proof {
            assert(before.take(i as int).last() == before[i - 1]);
            assert(list.deep_view() =~= before.take(i as int).drop_last().push((key, v))
                + before.skip(i as int));
        }
    } else {
        list.insert(i, (key, value));
        proof {
            assert(list.deep_view() =~= before.take(i as int).push((key, v)) + before.skip(i as int));
            if i > 0 {
                assert(before.take(i as int).last() == before[i - 1]);
            } else {
                assert(before.take(0).push((key, v)) =~= seq![(key, v)]);
            }
        }
    }
}

} // verus!
