use crate::topology::ConfigError;
use rand::rngs::StdRng;
use rand::seq::SliceRandom;
use vstd::prelude::*;

verus! {

#[verifier::external_type_specification]
#[verifier::external_body]
pub struct ExStdRng(StdRng);

/// Relies on rand's `SliceRandom::shuffle` for slices: it permutes the items
/// in place by swapping pairs, so the same positions remain, each once.
#[verifier::external_body]
fn shuffle_positions(order: &mut Vec<usize>, rng: &mut StdRng)
    ensures
        final(order)@.to_multiset() == old(order)@.to_multiset(),
        final(order)@.len() == old(order)@.len(),
{
    order.shuffle(rng);
}

/// The positions `0, 1, ..., n - 1` of a training sequence of `n` points.
pub open spec fn positions(n: nat) -> Seq<usize> {
    Seq::new(n, |i: int| i as usize)
}

/// What the training loop does next.
#[derive(Debug)]
pub enum Step {
    /// Measure the untrained network on the held-out points.
    EvaluateInitial,
    /// Run one batch update on the training points at these positions.
    Update { epoch: usize, batch: Vec<usize> },
    /// The epoch is over; measure on the held-out points if `evaluate`.
    EndEpoch { epoch: usize, evaluate: bool },
    /// Every epoch has run.
    Done,
}

/// The kind of step that a trainer in a given state hands out next.
pub enum Phase {
    EvaluateInitial,
    Update,
    EndEpoch,
    Done,
}

/// The decisions of mini-batch stochastic gradient descent over `points`
/// training points: for each epoch, shuffle the order of the points, cut it
/// into `points / batch_size` contiguous batches of `batch_size` (the last
/// `points % batch_size` positions sit out that epoch), update on each batch in
/// turn, then close the epoch. With `evaluate`, one evaluation comes first.
#[derive(Debug)]
pub struct Trainer {
    points: usize,
    epochs: usize,
    batch_size: usize,
    evaluate: bool,
    order: Vec<usize>,
    started: bool,
    epoch: usize,
    batch: usize,
}

impl Trainer {
    pub closed spec fn spec_points(&self) -> nat {
        self.points as nat
    }

    pub closed spec fn spec_epochs(&self) -> nat {
        self.epochs as nat
    }

    pub closed spec fn spec_batch_size(&self) -> nat {
        self.batch_size as nat
    }

    pub closed spec fn spec_evaluate(&self) -> bool {
        self.evaluate
    }

    /// The current order of the training points, as positions.
    pub closed spec fn spec_order(&self) -> Seq<usize> {
        self.order@
    }

    /// Whether the opening evaluation has been handed out (or is not wanted).
    pub closed spec fn spec_started(&self) -> bool {
        self.started
    }

    /// The epoch under way.
    pub closed spec fn spec_epoch(&self) -> nat {
        self.epoch as nat
    }

    /// The index, within the epoch, of the next batch.
    pub closed spec fn spec_batch(&self) -> nat {
        self.batch as nat
    }

    /// Batches per epoch: the tail that does not fill a batch is left out.
    pub open spec fn batch_count(&self) -> nat {
        self.spec_points() / self.spec_batch_size()
    }

    pub closed spec fn well_formed(&self) -> bool {
        &&& self.batch_size > 0
        &&& self.epoch <= self.epochs
        &&& self.batch <= self.batch_count()
        &&& self.order@.to_multiset() == positions(self.points as nat).to_multiset()
        &&& !self.started ==> self.epoch == 0 && self.batch == 0
    }

    pub open spec fn upcoming(&self) -> Phase {
        if !self.spec_started() {
            Phase::EvaluateInitial
        } else if self.spec_epoch() >= self.spec_epochs() {
            Phase::Done
        } else if self.spec_batch() < self.batch_count() {
            Phase::Update
        } else {
            Phase::EndEpoch
        }
    }

    /// The order holds each position of the training points once.
    pub open spec fn order_is_permutation(&self) -> bool {
        self.spec_order().to_multiset() == positions(self.spec_points()).to_multiset()
    }

    /// The configuration and the order stay; only the progress may differ.
    pub open spec fn same_plan(&self, other: &Trainer) -> bool {
        &&& self.spec_points() == other.spec_points()
        &&& self.spec_epochs() == other.spec_epochs()
        &&& self.spec_batch_size() == other.spec_batch_size()
        &&& self.spec_evaluate() == other.spec_evaluate()
    }

    /// A trainer for `points` training points, `epochs` epochs and batches of
    /// `batch_size`, with an evaluation before training and after each epoch
    /// when `evaluate` holds.
    pub fn new(points: usize, epochs: usize, batch_size: usize, evaluate: bool) -> (r: Result<
        Trainer,
        ConfigError,
    >)
        ensures
            r is Err <==> batch_size == 0,
            r is Err ==> r == Err::<Trainer, ConfigError>(ConfigError::ZeroBatchSize),
            r matches Ok(t) ==> {
                &&& t.well_formed()
                &&& t.order_is_permutation()
                &&& t.spec_points() == points
                &&& t.spec_epochs() == epochs
                &&& t.spec_batch_size() == batch_size
                &&& t.spec_evaluate() == evaluate
                &&& t.spec_order() == positions(points as nat)
                &&& t.spec_started() == !evaluate
                &&& t.spec_epoch() == 0
                &&& t.spec_batch() == 0
            },
    {
        if batch_size == 0 {
            return Err(ConfigError::ZeroBatchSize);
        }
        let mut order: Vec<usize> = Vec::new();
        let mut i: usize = 0;
        while i < points
            invariant
                i <= points,
                order@ == positions(i as nat),
            decreases points - i,
        {
            order.push(i);
            i += 1;
            assert(order@ =~= positions(i as nat));
        }
        Ok(Trainer { points, epochs, batch_size, evaluate, order, started: !evaluate, epoch: 0, batch: 0 })
    }

    /// Hands out the next step of training and moves past it. The order of
    /// the points is shuffled with `rng` as the first batch of an epoch is
    /// handed out.
    pub fn next(&mut self, rng: &mut StdRng) -> (r: Step)
        requires
            old(self).well_formed(),
        ensures
            final(self).well_formed(),
            final(self).same_plan(old(self)),
            final(self).order_is_permutation(),
            final(self).spec_order().len() == final(self).spec_points(),
            old(self).upcoming() == Phase::EvaluateInitial ==> {
                &&& r is EvaluateInitial
                &&& final(self).spec_started()
                &&& final(self).spec_order() == old(self).spec_order()
                &&& final(self).spec_epoch() == 0
                &&& final(self).spec_batch() == 0
            },
            old(self).upcoming() == Phase::Done ==> {
                &&& r is Done
                &&& final(self).spec_started()
                &&& final(self).spec_order() == old(self).spec_order()
                &&& final(self).spec_epoch() == old(self).spec_epoch()
                &&& final(self).spec_batch() == old(self).spec_batch()
            },
            old(self).upcoming() == Phase::Update ==> {
                let b = old(self).spec_batch();
                let size = old(self).spec_batch_size();
                &&& final(self).spec_started()
                &&& b == 0 ==> final(self).spec_order().to_multiset() == old(self).spec_order().to_multiset()
                &&& b > 0 ==> final(self).spec_order() == old(self).spec_order()
                &&& final(self).spec_epoch() == old(self).spec_epoch()
                &&& final(self).spec_batch() == b + 1
                &&& r matches Step::Update { epoch, batch } && epoch == old(self).spec_epoch()
                    && batch@ == final(self).spec_order().subrange((b * size) as int, ((b + 1) * size) as int)
                    && batch@.len() == size
                    && forall|j: int| 0 <= j < batch@.len() ==> #[trigger] batch@[j] < old(self).spec_points()
            },
            old(self).upcoming() == Phase::EndEpoch ==> {
                &&& final(self).spec_started()
                &&& final(self).spec_order() == old(self).spec_order()
                &&& final(self).spec_epoch() == old(self).spec_epoch() + 1
                &&& final(self).spec_batch() == 0
                &&& r == (Step::EndEpoch { epoch: old(self).spec_epoch() as usize, evaluate: old(self).spec_evaluate() })
            },
    {
        proof {
            self.order@.to_multiset_ensures();
            positions(self.points as nat).to_multiset_ensures();
        }
        if !self.started {
            self.started = true;
            return Step::EvaluateInitial;
        }
        if self.epoch >= self.epochs {
            return Step::Done;
        }
        let count = self.points / self.batch_size;
        if self.batch < count {
            if self.batch == 0 {
                shuffle_positions(&mut self.order, rng);
            }
            let b = self.batch;
            let size = self.batch_size;
            proof {
                lemma_batch_in_range(self.points as nat, size as nat, b as nat);
                self.order@.to_multiset_ensures();
                positions(self.points as nat).to_multiset_ensures();
            }
            let start = b * size;
            let end = start + size;
            proof {
                assert forall|q: int| 0 <= q < self.order@.len() implies #[trigger] self.order@[q]
                    < self.points by {
                    let x = self.order@[q];
                    assert(self.order@.contains(x));
                    assert(self.order@.to_multiset().count(x) > 0);
                    assert(positions(self.points as nat).contains(x));
                }
            }
            let mut batch: Vec<usize> = Vec::new();
            let mut j: usize = start;
            while j < end
                invariant
                    start <= j <= end,
                    end <= self.order@.len(),
                    batch@ == self.order@.subrange(start as int, j as int),
                    forall|q: int| 0 <= q < self.order@.len() ==> #[trigger] self.order@[q] < self.points,
                decreases end - j,
            {
                batch.push(self.order[j]);
                j += 1;
                assert(batch@ =~= self.order@.subrange(start as int, j as int));
            }
            self.batch = b + 1;
            Step::Update { epoch: self.epoch, batch }
        } else {
            let epoch = self.epoch;
            self.epoch = epoch + 1;
            self.batch = 0;
            Step::EndEpoch { epoch, evaluate: self.evaluate }
        }
    }
}

/// Whether position `p` lies in one of the batches of an epoch over `points`
/// points in batches of `batch_size`.
pub open spec fn in_some_batch(points: nat, batch_size: nat, p: nat) -> bool {
    exists|b: nat|
        b < points / batch_size && #[trigger] (b * batch_size) <= p && p < (b + 1) * batch_size
}

/// Training for zero epochs changes nothing: in every well-formed state of a
/// trainer for zero epochs the next step is not a batch update, and `next`
/// keeps the number of epochs, so no update is ever handed out.
pub proof fn lemma_zero_epochs_no_update(t: Trainer)
    requires
        t.well_formed(),
        t.spec_epochs() == 0,
    ensures
        t.upcoming() != Phase::Update,
{
}

/// An epoch over `points` points in batches of `batch_size` runs
/// `points / batch_size` batches, rounded down: batch `b` covers the positions
/// `b * batch_size` up to `(b + 1) * batch_size`, every batch fits in the
/// order, and a position lies in some batch exactly when it is below
/// `(points / batch_size) * batch_size`. The remaining `points % batch_size`
/// positions, fewer than a batch, sit out the epoch.
pub proof fn lemma_epoch_tail(points: nat, batch_size: nat)
    requires
        batch_size > 0,
    ensures
        (points / batch_size) * batch_size <= points,
        points - (points / batch_size) * batch_size == points % batch_size,
        points % batch_size < batch_size,
        forall|b: nat| b < points / batch_size ==> #[trigger] ((b + 1) * batch_size) <= points,
        forall|p: nat|
            p < points ==> (#[trigger] in_some_batch(points, batch_size, p) <==> p < (points
                / batch_size) * batch_size),
{
    let count = points / batch_size;
    vstd::arithmetic::div_mod::lemma_fundamental_div_mod(points as int, batch_size as int);
    vstd::arithmetic::div_mod::lemma_mod_bound(points as int, batch_size as int);
    assert forall|b: nat| b < count implies #[trigger] ((b + 1) * batch_size) <= points by {
        lemma_batch_in_range(points, batch_size, b);
    }
    assert forall|p: nat| p < points implies (#[trigger] in_some_batch(points, batch_size, p)
        <==> p < count * batch_size) by {
        if p < count * batch_size {
            let b = p / batch_size;
            vstd::arithmetic::div_mod::lemma_fundamental_div_mod(p as int, batch_size as int);
            vstd::arithmetic::div_mod::lemma_mod_bound(p as int, batch_size as int);
            assert(b * batch_size <= p && p < (b + 1) * batch_size) by (nonlinear_arith)
                requires
                    p == batch_size * b + p % batch_size,
                    0 <= p % batch_size < batch_size,
            ;
            assert(b < count) by (nonlinear_arith)
                requires
                    b * batch_size <= p,
                    p < count * batch_size,
                    batch_size > 0,
            ;
            assert(in_some_batch(points, batch_size, p));
        }
        if exists|b: nat| b < count && #[trigger] (b * batch_size) <= p && p < (b + 1) * batch_size {
            let b = choose|b: nat| b < count && #[trigger] (b * batch_size) <= p && p < (b + 1) * batch_size;
            lemma_batch_in_range(points, batch_size, b);
            assert((b + 1) * batch_size <= count * batch_size) by (nonlinear_arith)
                requires
                    b + 1 <= count,
                    batch_size > 0,
            ;
        }
    }
}

proof fn lemma_batch_in_range(points: nat, size: nat, b: nat)
    requires
        size > 0,
        b < points / size,
    ensures
        (b + 1) * size <= points,
        b * size + size == (b + 1) * size,
{
    assert((b + 1) * size <= (points / size) * size) by (nonlinear_arith)
        requires
            b + 1 <= points / size,
            size > 0,
    ;
    vstd::arithmetic::div_mod::lemma_fundamental_div_mod(points as int, size as int);
    assert((b + 1) * size == b * size + size) by (nonlinear_arith);
}

} // verus!
