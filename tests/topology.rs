use hnet::{ConfigError, ShapeError, Topology};

#[test]
fn accepts_three_layers() {
    let t = Topology::new(vec![2, 3, 2]).unwrap();
    assert_eq!(t.layer_count(), 3);
    assert_eq!(t.layer_sizes(), &vec![2, 3, 2]);
    assert_eq!(t.input_len(), 2);
    assert_eq!(t.output_len(), 2);
}

#[test]
fn refuses_single_layer() {
    assert_eq!(Topology::new(vec![4]).unwrap_err(), ConfigError::TooFewLayers);
    assert_eq!(Topology::new(vec![]).unwrap_err(), ConfigError::TooFewLayers);
}

#[test]
fn refuses_first_empty_layer() {
    assert_eq!(
        Topology::new(vec![3, 0, 4, 0]).unwrap_err(),
        ConfigError::EmptyLayer { index: 1 }
    );
    assert_eq!(
        Topology::new(vec![0, 2]).unwrap_err(),
        ConfigError::EmptyLayer { index: 0 }
    );
}

#[test]
fn weight_and_bias_shapes() {
    let t = Topology::new(vec![784, 100, 45, 10]).unwrap();
    assert_eq!(t.weight_shape(0), (100, 784));
    assert_eq!(t.weight_shape(1), (45, 100));
    assert_eq!(t.weight_shape(2), (10, 45));
    assert_eq!(t.bias_len(0), 100);
    assert_eq!(t.bias_len(2), 10);
}

#[test]
fn feedforward_len_is_output_width() {
    let t = Topology::new(vec![5, 7, 3]).unwrap();
    assert_eq!(t.feedforward_len(5), Ok(3));
    assert_eq!(
        t.feedforward_len(4),
        Err(ShapeError::DimensionMismatch { expected: 5, found: 4 })
    );
}

#[test]
fn input_and_target_checks() {
    let t = Topology::new(vec![2, 3, 2]).unwrap();
    assert_eq!(t.check_input(2), Ok(()));
    assert_eq!(
        t.check_input(3),
        Err(ShapeError::DimensionMismatch { expected: 2, found: 3 })
    );
    assert_eq!(t.check_target(2), Ok(()));
    assert_eq!(
        t.check_target(10),
        Err(ShapeError::DimensionMismatch { expected: 2, found: 10 })
    );
}
