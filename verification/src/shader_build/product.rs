//! The cartesian product of index ranges.

use vstd::arithmetic::div_mod::{
    lemma_fundamental_div_mod,
    lemma_fundamental_div_mod_converse,
};
use vstd::prelude::*;

verus! {

/// How many combinations there are: the product of all sizes.
pub open spec fn combination_count(sizes: Seq<usize>) -> nat
    decreases sizes.len(),
{
    if sizes.len() == 0 {
        1
    } else {
        combination_count(sizes.drop_last()) * sizes.last() as nat
    }
}

/// Combination number `c`: the digits of `c`, the highest first, where digit `i` counts to
/// `sizes[i]`.
pub open spec fn combination(sizes: Seq<usize>, c: int) -> Seq<usize>
    decreases sizes.len(),
{
    if sizes.len() == 0 {
        Seq::empty()
    } else {
        combination(sizes.drop_last(), c / sizes.last() as int).push(
            (c % sizes.last() as int) as usize,
        )
    }
}

/// All combinations, in order.
pub open spec fn combinations(sizes: Seq<usize>) -> Seq<Seq<usize>> {
    Seq::new(combination_count(sizes), |c: int| combination(sizes, c))
}

/// The contents of several vectors.
pub open spec fn rows(vectors: Seq<Vec<usize>>) -> Seq<Seq<usize>> {
    Seq::new(vectors.len(), |i: int| vectors[i]@)
}

/// A vector with one more element.
fn extended(combo: &Vec<usize>, i: usize) -> (result: Vec<usize>)
    ensures
        result@ == combo@.push(i),
{
    let mut longer: Vec<usize> = Vec::new();
    let mut k: usize = 0;
    while k < combo.len()
        invariant
            k <= combo@.len(),
            longer@ == combo@.take(k as int),
        decreases combo@.len() - k,
    {
        longer.push(combo[k]);
        assert(combo@.take(k + 1) =~= combo@.take(k as int).push(combo@[k as int]));
        k = k + 1;
    }
    assert(combo@.take(k as int) =~= combo@);
    longer.push(i);
    longer
}

/// Each combination in turn, followed by each index below `size` in turn.
fn extend_all(combos: &Vec<Vec<usize>>, size: usize, Ghost(sizes): Ghost<Seq<usize>>) -> (result: Vec<
    Vec<usize>,
>)
    requires
        sizes.len() > 0,
        sizes.last() == size,
        rows(combos@) == combinations(sizes.drop_last()),
    ensures
        rows(result@) == combinations(sizes),
{
    let ghost shorter = sizes.drop_last();
    let mut next: Vec<Vec<usize>> = Vec::new();
    let mut c: usize = 0;
    assert(combos@.len() == rows(combos@).len() == combination_count(shorter));
    assert(0 * size == 0) by (nonlinear_arith);
    while c < combos.len()
        invariant
            sizes.len() > 0,
            sizes.last() == size,
            shorter == sizes.drop_last(),
            rows(combos@) == combinations(shorter),
            combos@.len() == combination_count(shorter),
            c <= combos@.len(),
            next@.len() == c * size,
            forall|k: int|
                0 <= k < next@.len() ==> (#[trigger] next@[k])@ == combination(sizes, k),
        decreases combos@.len() - c,
    {
        let mut i: usize = 0;
        assert(rows(combos@)[c as int] == combination(shorter, c as int));
        while i < size
            invariant
                sizes.len() > 0,
                sizes.last() == size,
                shorter == sizes.drop_last(),
                c < combos@.len(),
                combos@[c as int]@ == combination(shorter, c as int),
                i <= size,
                next@.len() == c * size + i,
                forall|k: int|
                    0 <= k < next@.len() ==> (#[trigger] next@[k])@ == combination(sizes, k),
            decreases size - i,
        {
            let ghost k = c * size + i;
            proof {
                assert(k == size * c + i) by (nonlinear_arith)
                    requires
                        k == c * size + i,
                ;
                lemma_fundamental_div_mod_converse(k, size as int, c as int, i as int);
                assert(combination(sizes, k) == combination(shorter, c as int).push(i));
            }
            next.push(extended(&combos[c], i));
            i = i + 1;
        }
        assert((c + 1) * size == c * size + size) by (nonlinear_arith);
        c = c + 1;
    }
    assert(rows(next@) =~= combinations(sizes));
    next
}

/// `cartesian_product_indices([2, 3])` -> `[[0,0], [0,1], [0,2], [1,0], [1,1], [1,2]]`
pub fn cartesian_product_indices(sizes: &Vec<usize>) -> (result: Vec<Vec<usize>>)
    ensures
        rows(result@) == combinations(sizes@),
        result@.len() == combination_count(sizes@),
{
    let mut result: Vec<Vec<usize>> = Vec::new();
    result.push(Vec::new());
    let mut n: usize = 0;
    proof {
        let none = sizes@.take(0);
        assert(combination(none, 0) =~= Seq::<usize>::empty());
        assert(rows(result@) =~= combinations(none));
    }
    while n < sizes.len()
        invariant
            n <= sizes@.len(),
            rows(result@) == combinations(sizes@.take(n as int)),
        decreases sizes@.len() - n,
    {
        let ghost longer = sizes@.take(n + 1);
        assert(longer.drop_last() =~= sizes@.take(n as int));
        result = extend_all(&result, sizes[n], Ghost(longer));
        n = n + 1;
    }
    assert(sizes@.take(n as int) =~= sizes@);
    assert(rows(result@).len() == result@.len());
    result
}

/// Every combination has one index below each size.
pub proof fn law_combination_bounds(sizes: Seq<usize>, c: int)
    requires
        0 <= c < combination_count(sizes),
    ensures
        combination(sizes, c).len() == sizes.len(),
        forall|i: int| 0 <= i < sizes.len() ==> #[trigger] combination(sizes, c)[i] < sizes[i],
    decreases sizes.len(),
{
    if sizes.len() > 0 {
        let size = sizes.last() as int;
        let shorter = sizes.drop_last();
        lemma_parent(sizes, c);
        law_combination_bounds(shorter, c / size);
        let combo = combination(sizes, c);
        assert forall|i: int| 0 <= i < sizes.len() implies #[trigger] combo[i] < sizes[i] by {
            if i < shorter.len() {
                assert(combo[i] == combination(shorter, c / size)[i]);
                assert(sizes[i] == shorter[i]);
            }
        }
    }
}

/// No combination occurs twice.
pub proof fn law_combinations_differ(sizes: Seq<usize>, a: int, b: int)
    requires
        0 <= a < combination_count(sizes),
        0 <= b < combination_count(sizes),
        combination(sizes, a) == combination(sizes, b),
    ensures
        a == b,
    decreases sizes.len(),
{
    if sizes.len() > 0 {
        let size = sizes.last() as int;
        let shorter = sizes.drop_last();
        lemma_parent(sizes, a);
        lemma_parent(sizes, b);
        let x = combination(sizes, a);
        let y = combination(sizes, b);
        assert(x.last() == y.last());
        assert(x.drop_last() =~= combination(shorter, a / size));
        assert(y.drop_last() =~= combination(shorter, b / size));
        law_combinations_differ(shorter, a / size, b / size);
        lemma_fundamental_div_mod(a, size);
        lemma_fundamental_div_mod(b, size);
    }
}

/// Every choice of one index below each size is a combination.
pub proof fn law_combinations_complete(sizes: Seq<usize>, choice: Seq<usize>) -> (c: int)
    requires
        choice.len() == sizes.len(),
        forall|i: int| 0 <= i < sizes.len() ==> #[trigger] choice[i] < sizes[i],
    ensures
        0 <= c < combination_count(sizes),
        combination(sizes, c) == choice,
    decreases sizes.len(),
{
    if sizes.len() == 0 {
        assert(choice =~= Seq::<usize>::empty());
        0
    } else {
        let size = sizes.last() as int;
        let shorter = sizes.drop_last();
        let rest = choice.drop_last();
        let digit = choice.last() as int;
        assert(digit < size);
        assert forall|i: int| 0 <= i < shorter.len() implies #[trigger] rest[i] < shorter[i] by {
            assert(choice[i] < sizes[i]);
        }
        let parent = law_combinations_complete(shorter, rest);
        let c = size * parent + digit;
        let count = combination_count(shorter) as int;
        lemma_fundamental_div_mod_converse(c, size, parent, digit);
        assert(0 <= c < count * size) by (nonlinear_arith)
            requires
                c == size * parent + digit,
                0 <= parent < count,
                0 <= digit < size,
        ;
        assert(combination(sizes, c) =~= choice);
        c
    }
}

/// What precedes the last digit of a combination's number is a combination's number.
proof fn lemma_parent(sizes: Seq<usize>, c: int)
    requires
        sizes.len() > 0,
        0 <= c < combination_count(sizes),
    ensures
        sizes.last() > 0,
        0 <= c / sizes.last() as int,
        c / (sizes.last() as int) < combination_count(sizes.drop_last()),
        0 <= c % (sizes.last() as int) < sizes.last(),
{
    let size = sizes.last() as int;
    let count = combination_count(sizes.drop_last()) as int;
    assert(size > 0) by (nonlinear_arith)
        requires
            0 < count * size,
            size >= 0,
    ;
    lemma_fundamental_div_mod(c, size);
    let q = c / size;
    assert(0 <= q < count) by (nonlinear_arith)
        requires
            c == size * q + c % size,
            0 <= c < count * size,
            0 <= c % size < size,
    ;
}

/// The combinations come in order: of two, the one that comes first has the smaller index at the
/// first place where they differ.
pub proof fn law_combinations_in_order(sizes: Seq<usize>, a: int, b: int) -> (i: int)
    requires
        0 <= a < b < combination_count(sizes),
    ensures
        0 <= i < sizes.len(),
        combination(sizes, a)[i] < combination(sizes, b)[i],
        forall|k: int| 0 <= k < i ==> combination(sizes, a)[k] == #[trigger] combination(sizes, b)[k],
    decreases sizes.len(),
{
    law_combination_bounds(sizes, a);
    law_combination_bounds(sizes, b);
    if sizes.len() == 0 {
        0
    } else {
        let size = sizes.last() as int;
        let shorter = sizes.drop_last();
        lemma_parent(sizes, a);
        lemma_parent(sizes, b);
        lemma_fundamental_div_mod(a, size);
        lemma_fundamental_div_mod(b, size);
        let p = a / size;
        let q = b / size;
        assert(p <= q) by (nonlinear_arith)
            requires
                a == size * p + a % size,
                b == size * q + b % size,
                0 <= a % size < size,
                0 <= b % size < size,
                a < b,
        ;
        law_combination_bounds(shorter, p);
        law_combination_bounds(shorter, q);
        if p < q {
            let i = law_combinations_in_order(shorter, p, q);
            assert(combination(sizes, a)[i] == combination(shorter, p)[i]);
            assert(combination(sizes, b)[i] == combination(shorter, q)[i]);
            assert forall|k: int| 0 <= k < i implies combination(sizes, a)[k]
                == #[trigger] combination(sizes, b)[k] by {
                assert(combination(shorter, p)[k] == combination(shorter, q)[k]);
            }
            i
        } else {
            sizes.len() - 1
        }
    }
}

} // verus!
