use vstd::prelude::*;

verus! {

/// Among the first `k` points, how many have the predicted class equal to the
/// true class.
pub open spec fn tally(predicted: Seq<usize>, expected: Seq<usize>, k: nat) -> nat
    decreases k,
{
    if k == 0 {
        0
    } else {
        tally(predicted, expected, (k - 1) as nat) + if predicted[k - 1] == expected[k - 1] {
            1nat
        } else {
            0nat
        }
    }
}

/// How many points of an evaluation were classified correctly.
pub open spec fn correct_count(predicted: Seq<usize>, expected: Seq<usize>) -> nat {
    tally(predicted, expected, predicted.len())
}

/// Counts the points whose predicted class (the index of the largest output
/// of the network) equals their true class (the index of the largest
/// component of the target).
pub fn count_correct(predicted: &Vec<usize>, expected: &Vec<usize>) -> (r: usize)
    requires
        predicted@.len() == expected@.len(),
    ensures
        r == correct_count(predicted@, expected@),
{
    let mut count: usize = 0;
    let mut i: usize = 0;
    while i < predicted.len()
        invariant
            predicted@.len() == expected@.len(),
            i <= predicted@.len(),
            count == tally(predicted@, expected@, i as nat),
            count <= i,
        decreases predicted@.len() - i,
    {
        if predicted[i] == expected[i] {
            count += 1;
        }
        i += 1;
    }
    count
}

/// When every prediction is right, the count is the number of points.
pub proof fn lemma_all_correct(predicted: Seq<usize>, expected: Seq<usize>)
    requires
        predicted.len() == expected.len(),
        forall|i: int| 0 <= i < predicted.len() ==> predicted[i] == expected[i],
    ensures
        correct_count(predicted, expected) == predicted.len(),
{
    lemma_all_correct_prefix(predicted, expected, predicted.len());
}

proof fn lemma_all_correct_prefix(predicted: Seq<usize>, expected: Seq<usize>, k: nat)
    requires
        k <= predicted.len() == expected.len(),
        forall|i: int| 0 <= i < predicted.len() ==> predicted[i] == expected[i],
    ensures
        tally(predicted, expected, k) == k,
    decreases k,
{
    if k > 0 {
        lemma_all_correct_prefix(predicted, expected, (k - 1) as nat);
    }
}

/// Moving the true class of one correctly predicted point to another class
/// lowers the count by exactly one.
pub proof fn lemma_one_wrong_target(
    predicted: Seq<usize>,
    expected: Seq<usize>,
    i: int,
    class: usize,
)
    requires
        predicted.len() == expected.len(),
        0 <= i < predicted.len(),
        predicted[i] == expected[i],
        class != expected[i],
    ensures
        correct_count(predicted, expected.update(i, class)) + 1 == correct_count(
            predicted,
            expected,
        ),
{
    lemma_one_wrong_prefix(predicted, expected, i, class, predicted.len());
}

proof fn lemma_one_wrong_prefix(
    predicted: Seq<usize>,
    expected: Seq<usize>,
    i: int,
    class: usize,
    k: nat,
)
    requires
        k <= predicted.len() == expected.len(),
        0 <= i < predicted.len(),
        predicted[i] == expected[i],
        class != expected[i],
    ensures
        tally(predicted, expected.update(i, class), k) + (if i < k {
            1nat
        } else {
            0nat
        }) == tally(predicted, expected, k),
    decreases k,
{
    if k > 0 {
        lemma_one_wrong_prefix(predicted, expected, i, class, (k - 1) as nat);
    }
}

} // verus!
