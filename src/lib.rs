//! Integer side of a sigmoid multilayer perceptron trained by mini-batch
//! stochastic gradient descent: the layer shapes of a network, the order in
//! which training visits its data, the tally of an evaluation, and the
//! layout of the handwritten-digit archives it learns from.
pub mod digits_layout;
pub mod evaluation;
pub mod schedule;
pub mod topology;

pub use digits_layout::{
    load_digits, train_network_digits, ArchiveLayout, DigitSample, DigitsTask, LoadError,
};
pub use evaluation::count_correct;
pub use schedule::{Step, Trainer};
pub use topology::{ConfigError, ShapeError, Topology};
