//! Minimum, maximum and mean over slices of totally ordered values.

use vstd::prelude::*;
use vstd::laws_cmp::obeys_partial_cmp_spec_properties;
use vstd::std_specs::cmp::PartialOrdSpec;
use core::cmp::Ordering;

verus! {

/// `a` compares strictly below `b` by the type's ordering.
pub open spec fn below<T: PartialOrd>(a: T, b: T) -> bool {
    a.partial_cmp_spec(&b) == Some(Ordering::Less)
}

/// The ordering that `<` and `>` follow on `T` is a lawful one (it is
/// transitive and `a < b` holds exactly when `b > a`).
pub open spec fn lawful_order<T: PartialOrd>() -> bool {
    &&& T::obeys_partial_cmp_spec()
    &&& obeys_partial_cmp_spec_properties::<T>()
}

/// The smallest element of `numbers`, or `None` when it is empty.
pub fn min<T: PartialOrd>(numbers: &[T]) -> (r: Option<&T>)
    requires
        lawful_order::<T>(),
    ensures
        numbers@.len() == 0 <==> r is None,
        r matches Some(m) ==> numbers@.contains(*m),
        r matches Some(m) ==> forall|j: int|
            0 <= j < numbers@.len() ==> !below(#[trigger] numbers@[j], *m),
{
    if numbers.len() == 0 {
        return None;
    }
    proof {
        reveal(obeys_partial_cmp_spec_properties);
    }
    let mut m: &T = &numbers[0];
    let mut i: usize = 1;
    while i < numbers.len()
        invariant
            1 <= i <= numbers@.len(),
            lawful_order::<T>(),
            numbers@.contains(*m),
            forall|j: int| 0 <= j < i ==> !below(#[trigger] numbers@[j], *m),
        decreases numbers@.len() - i,
    {
        proof {
            reveal(obeys_partial_cmp_spec_properties);
        }
        let n: &T = &numbers[i];
        if *n < *m {
            m = n;
        }
        i = i + 1;
    }
    Some(m)
}

/// The largest element of `numbers`, or `None` when it is empty.
pub fn max<T: PartialOrd>(numbers: &[T]) -> (r: Option<&T>)
    requires
        lawful_order::<T>(),
    ensures
        numbers@.len() == 0 <==> r is None,
        r matches Some(m) ==> numbers@.contains(*m),
        r matches Some(m) ==> forall|j: int|
            0 <= j < numbers@.len() ==> !below(*m, #[trigger] numbers@[j]),
{
    if numbers.len() == 0 {
        return None;
    }
    proof {
        reveal(obeys_partial_cmp_spec_properties);
    }
    let mut m: &T = &numbers[0];
    let mut i: usize = 1;
    while i < numbers.len()
        invariant
            1 <= i <= numbers@.len(),
            lawful_order::<T>(),
            numbers@.contains(*m),
            forall|j: int| 0 <= j < i ==> !below(*m, #[trigger] numbers@[j]),
        decreases numbers@.len() - i,
    {
        proof {
            reveal(obeys_partial_cmp_spec_properties);
        }
        let n: &T = &numbers[i];
        if *n > *m {
            m = n;
        }
        i = i + 1;
    }
    Some(m)
}

/// The sum of a sequence of values, as a mathematical integer.
pub open spec fn sum_of(s: Seq<u64>) -> int
    decreases s.len(),
{
    if s.len() == 0 {
        0
    } else {
        sum_of(s.drop_last()) + s.last()
    }
}

/// A sum of `n` values is at most `n` times the largest `u64`.
proof fn lemma_sum_bound(s: Seq<u64>)
    ensures
        0 <= sum_of(s) <= s.len() * (u64::MAX as int),
    decreases s.len(),
{
    if s.len() > 0 {
        lemma_sum_bound(s.drop_last());
    }
}

/// The exact sum of `numbers`.
pub fn sum(numbers: &[u64]) -> (r: u128)
    ensures
        r == sum_of(numbers@),
{
    let mut total: u128 = 0;
    let mut i: usize = 0;
    while i < numbers.len()
        invariant
            i <= numbers@.len(),
            total == sum_of(numbers@.take(i as int)),
        decreases numbers@.len() - i,
    {
        proof {
            let next = numbers@.take(i + 1);
            assert(next.drop_last() == numbers@.take(i as int));
            lemma_sum_bound(next);
            let k: int = next.len() as int;
            assert(k <= u64::MAX);
            assert(k * (u64::MAX as int) <= (u64::MAX as int) * (u64::MAX as int)) by (nonlinear_arith)
                requires
                    0 <= k <= u64::MAX,
            ;
        }
        total = total + numbers[i] as u128;
        i = i + 1;
    }
    assert(numbers@.take(numbers@.len() as int) == numbers@);
    total
}

/// The arithmetic mean of `numbers`, rounded down, or `None` when it is empty.
pub fn avg(numbers: &[u64]) -> (r: Option<u64>)
    ensures
        numbers@.len() == 0 <==> r is None,
        r matches Some(a) ==> a == sum_of(numbers@) / (numbers@.len() as int),
{
    if numbers.len() == 0 {
        return None;
    }
    let total: u128 = sum(numbers);
    let n: u128 = numbers.len() as u128;
    proof {
        lemma_sum_bound(numbers@);
        let t: int = total as int;
        let k: int = n as int;
        assert(t / k <= u64::MAX) by (nonlinear_arith)
            requires
                k >= 1,
                0 <= t <= k * (u64::MAX as int),
        ;
    }
    Some((total / n) as u64)
}

} // verus!
