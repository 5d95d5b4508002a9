use hnet::{ConfigError, Step, Trainer};
use rand::rngs::StdRng;
use rand::SeedableRng;

fn run(trainer: &mut Trainer, rng: &mut StdRng) -> Vec<Step> {
    let mut steps = Vec::new();
    loop {
        let step = trainer.next(rng);
        if matches!(step, Step::Done) {
            return steps;
        }
        steps.push(step);
    }
}

#[test]
fn zero_batch_size_is_refused() {
    assert_eq!(
        Trainer::new(10, 1, 0, false).unwrap_err(),
        ConfigError::ZeroBatchSize
    );
}

#[test]
fn zero_epochs_asks_for_no_update() {
    let mut rng = StdRng::seed_from_u64(7);
    let mut t = Trainer::new(23, 0, 10, true).unwrap();
    let steps = run(&mut t, &mut rng);
    assert_eq!(steps.len(), 1);
    assert!(matches!(steps[0], Step::EvaluateInitial));
    let mut quiet = Trainer::new(23, 0, 10, false).unwrap();
    assert!(run(&mut quiet, &mut rng).is_empty());
    assert!(matches!(quiet.next(&mut rng), Step::Done));
}

#[test]
fn tail_of_epoch_is_dropped() {
    let mut rng = StdRng::seed_from_u64(1);
    let mut t = Trainer::new(23, 3, 10, false).unwrap();
    let steps = run(&mut t, &mut rng);
    // each epoch: two batches of ten, then the end of the epoch
    assert_eq!(steps.len(), 9);
    for epoch in 0..3 {
        let mut seen = Vec::new();
        for k in 0..2 {
            match &steps[epoch * 3 + k] {
                Step::Update { epoch: e, batch } => {
                    assert_eq!(*e, epoch);
                    assert_eq!(batch.len(), 10);
                    seen.extend(batch.iter().copied());
                }
                other => panic!("expected an update, got {:?}", other),
            }
        }
        seen.sort();
        seen.dedup();
        assert_eq!(seen.len(), 20);
        assert!(seen.iter().all(|&p| p < 23));
        match &steps[epoch * 3 + 2] {
            Step::EndEpoch { epoch: e, evaluate } => {
                assert_eq!(*e, epoch);
                assert!(!*evaluate);
            }
            other => panic!("expected the end of an epoch, got {:?}", other),
        }
    }
}

#[test]
fn evaluation_before_and_after_each_epoch() {
    let mut rng = StdRng::seed_from_u64(3);
    let mut t = Trainer::new(4, 2, 1, true).unwrap();
    let steps = run(&mut t, &mut rng);
    assert_eq!(steps.len(), 1 + 2 * 5);
    assert!(matches!(steps[0], Step::EvaluateInitial));
    assert!(matches!(steps[5], Step::EndEpoch { epoch: 0, evaluate: true }));
    assert!(matches!(steps[10], Step::EndEpoch { epoch: 1, evaluate: true }));
}

#[test]
fn fewer_points_than_a_batch_trains_nothing() {
    let mut rng = StdRng::seed_from_u64(5);
    let mut t = Trainer::new(3, 2, 10, false).unwrap();
    let steps = run(&mut t, &mut rng);
    assert_eq!(steps.len(), 2);
    assert!(steps.iter().all(|s| matches!(s, Step::EndEpoch { .. })));
}

#[test]
fn shuffle_changes_the_order() {
    let mut rng = StdRng::seed_from_u64(11);
    let mut t = Trainer::new(50, 1, 50, false).unwrap();
    match t.next(&mut rng) {
        Step::Update { epoch, batch } => {
            assert_eq!(epoch, 0);
            let identity: Vec<usize> = (0..50).collect();
            assert_ne!(batch, identity);
            let mut sorted = batch.clone();
            sorted.sort();
            assert_eq!(sorted, identity);
        }
        other => panic!("expected an update, got {:?}", other),
    }
}
