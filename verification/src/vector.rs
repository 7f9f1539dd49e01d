//! Elementwise operations on vectors of scalars.

use vstd::prelude::*;
use crate::scalar::Scalar;

verus! {

/// The sum of the entries of `s`, accumulated from zero in index order.
pub open spec fn total<T: Scalar>(s: Seq<T>) -> T
    decreases s.len(),
{
    if s.len() == 0 {
        T::zero_spec()
    } else {
        total(s.drop_last()).add_spec(s.last())
    }
}

/// Every entry multiplied by `factor`.
pub open spec fn scaled<T: Scalar>(s: Seq<T>, factor: T) -> Seq<T> {
    Seq::new(s.len(), |i: int| s[i].mul_spec(factor))
}

/// `len` copies of `value`.
pub open spec fn filled<T>(len: nat, value: T) -> Seq<T> {
    Seq::new(len, |i: int| value)
}

/// Sums a vector from zero, left to right.
pub fn sum<T: Scalar>(v: &Vec<T>) -> (r: T)
    ensures
        r == total(v@),
{
    let mut acc = T::zero();
    let mut i: usize = 0;
    while i < v.len()
        invariant
            i <= v.len(),
            acc == total(v@.take(i as int)),
        decreases v.len() - i,
    {
        assert(v@.take(i as int + 1).drop_last() =~= v@.take(i as int));
        acc = acc.add(v[i]);
        i += 1;
    }
    assert(v@.take(i as int) =~= v@);
    acc
}

/// A vector of `len` copies of `value`.
pub fn repeat<T: Copy>(len: usize, value: T) -> (v: Vec<T>)
    ensures
        v@ == filled(len as nat, value),
{
    let mut v: Vec<T> = Vec::new();
    let mut i: usize = 0;
    while i < len
        invariant
            i <= len,
            v@.len() == i,
            forall|j: int| 0 <= j < i ==> v@[j] == value,
        decreases len - i,
    {
        v.push(value);
        i += 1;
    }
    assert(v@ =~= filled(len as nat, value));
    v
}

/// A vector of `d` zeros.
pub fn zeros<T: Scalar>(d: usize) -> (v: Vec<T>)
    ensures
        v@ == filled(d as nat, T::zero_spec()),
{
    repeat(d, T::zero())
}

/// An independent copy of `v`.
pub fn duplicate<T: Copy>(v: &Vec<T>) -> (copy: Vec<T>)
    ensures
        copy@ == v@,
{
    let mut copy: Vec<T> = Vec::new();
    let mut i: usize = 0;
    while i < v.len()
        invariant
            i <= v.len(),
            copy@ == v@.take(i as int),
        decreases v.len() - i,
    {
        copy.push(v[i]);
        assert(copy@ =~= v@.take(i as int + 1));
        i += 1;
    }
    assert(v@.take(i as int) =~= v@);
    copy
}

/// Overwrites every entry of `v` with `value`.
pub fn fill<T: Copy>(v: &mut Vec<T>, value: T)
    ensures
        final(v)@ == filled(old(v)@.len(), value),
{
    let n = v.len();
    let mut i: usize = 0;
    while i < n
        invariant
            i <= n,
            v@.len() == n,
            forall|j: int| 0 <= j < i ==> v@[j] == value,
        decreases n - i,
    {
        v[i] = value;
        i += 1;
    }
    assert(v@ =~= filled(n as nat, value));
}

/// Multiplies every entry of `v` by `factor`.
pub fn scale<T: Scalar>(v: &mut Vec<T>, factor: T)
    ensures
        final(v)@ == scaled(old(v)@, factor),
{
    let n = v.len();
    let mut i: usize = 0;
    while i < n
        invariant
            i <= n,
            v@.len() == n,
            n == old(v)@.len(),
            forall|j: int| 0 <= j < i ==> v@[j] == old(v)@[j].mul_spec(factor),
            forall|j: int| i <= j < n ==> v@[j] == old(v)@[j],
        decreases n - i,
    {
        let x = v[i];
        v[i] = x.mul(factor);
        i += 1;
    }
    assert(v@ =~= scaled(old(v)@, factor));
}

} // verus!
