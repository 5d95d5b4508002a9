use vstd::prelude::*;

verus! {

/// Why a network description or a training request was refused.
#[derive(Debug, Clone, Copy, PartialEq, Eq, Structural)]
pub enum ConfigError {
    /// A network needs an input layer and an output layer at least.
    TooFewLayers,
    /// The layer at this position was given no units.
    EmptyLayer { index: usize },
    /// Batches must hold at least one point.
    ZeroBatchSize,
}

/// A vector whose length does not fit the layer it meets.
#[derive(Debug, Clone, Copy, PartialEq, Eq, Structural)]
pub enum ShapeError {
    DimensionMismatch { expected: usize, found: usize },
}

/// Layer sizes that describe a network: at least two layers, none empty.
pub open spec fn valid_sizes(s: Seq<usize>) -> bool {
    &&& s.len() >= 2
    &&& forall|i: int| 0 <= i < s.len() ==> s[i] > 0
}

/// The layer widths of a fully connected network, input first, output last.
/// Layer `i` of weights maps a vector of width `sizes[i]` to one of width
/// `sizes[i + 1]`, so it is a `sizes[i + 1] x sizes[i]` matrix with a bias
/// vector of length `sizes[i + 1]`.
#[derive(Debug)]
pub struct Topology {
    sizes: Vec<usize>,
}

impl View for Topology {
    type V = Seq<usize>;

    closed spec fn view(&self) -> Seq<usize> {
        self.sizes@
    }
}

impl Topology {
    pub open spec fn well_formed(&self) -> bool {
        valid_sizes(self@)
    }

    /// Number of weight matrices (and bias vectors): one less than the layers.
    pub open spec fn spec_weight_layers(&self) -> int {
        self@.len() - 1
    }

    /// Accepts `sizes` when it has two layers or more and no empty layer.
    pub fn new(sizes: Vec<usize>) -> (r: Result<Topology, ConfigError>)
        ensures
            r is Ok <==> valid_sizes(sizes@),
            r matches Ok(t) ==> t@ == sizes@ && t.well_formed(),
            r == Err::<Topology, ConfigError>(ConfigError::TooFewLayers) <==> sizes@.len() < 2,
            r matches Err(ConfigError::EmptyLayer { index }) ==> {
                &&& sizes@.len() >= 2
                &&& index < sizes@.len()
                &&& sizes@[index as int] == 0
                &&& forall|j: int| 0 <= j < index ==> sizes@[j] > 0
            },
            !(r matches Err(ConfigError::ZeroBatchSize)),
    {
        if sizes.len() < 2 {
            return Err(ConfigError::TooFewLayers);
        }
        let mut i: usize = 0;
        while i < sizes.len()
            invariant
                0 <= i <= sizes@.len(),
                sizes@.len() >= 2,
                forall|j: int| 0 <= j < i ==> sizes@[j] > 0,
            decreases sizes@.len() - i,
        {
            if sizes[i] == 0 {
                return Err(ConfigError::EmptyLayer { index: i });
            }
            i += 1;
        }
        Ok(Topology { sizes })
    }

    /// The layer widths, input first.
    pub fn layer_sizes(&self) -> (r: &Vec<usize>)
        ensures
            r@ == self@,
    {
        &self.sizes
    }

    /// Number of layers, input and output included.
    pub fn layer_count(&self) -> (r: usize)
        ensures
            r == self@.len(),
    {
        self.sizes.len()
    }

    /// Width of the input layer.
    pub fn input_len(&self) -> (r: usize)
        requires
            self.well_formed(),
        ensures
            r == self@[0],
    {
        self.sizes[0]
    }

    /// Width of the output layer.
    pub fn output_len(&self) -> (r: usize)
        requires
            self.well_formed(),
        ensures
            r == self@.last(),
    {
        self.sizes[self.sizes.len() - 1]
    }

    /// Shape `(rows, columns)` of the weight matrix of layer `i`.
    pub fn weight_shape(&self, i: usize) -> (r: (usize, usize))
        requires
            self.well_formed(),
            i < self.spec_weight_layers(),
        ensures
            r == (self@[i + 1], self@[i as int]),
    {
        let layers = self.sizes.len();
        assert(i + 1 < layers);
        (self.sizes[i + 1], self.sizes[i])
    }

    /// Length of the bias vector of layer `i`.
    pub fn bias_len(&self, i: usize) -> (r: usize)
        requires
            self.well_formed(),
            i < self.spec_weight_layers(),
        ensures
            r == self@[i + 1],
    {
        let layers = self.sizes.len();
        assert(i + 1 < layers);
        self.sizes[i + 1]
    }

    /// Checks that an input vector of length `found` fits the input layer.
    pub fn check_input(&self, found: usize) -> (r: Result<(), ShapeError>)
        requires
            self.well_formed(),
        ensures
            r is Ok <==> found == self@[0],
            r is Err ==> r == Err::<(), ShapeError>(
                ShapeError::DimensionMismatch { expected: self@[0], found },
            ),
    {
        let expected = self.sizes[0];
        if found == expected {
            Ok(())
        } else {
            Err(ShapeError::DimensionMismatch { expected, found })
        }
    }

    /// Length of what a forward pass makes of an input of length `found`:
    /// each layer takes a vector as wide as its weight matrix has columns and
    /// gives one as long as its bias, so a fitting input leaves with the width
    /// of the output layer.
    pub fn feedforward_len(&self, found: usize) -> (r: Result<usize, ShapeError>)
        requires
            self.well_formed(),
        ensures
            r is Ok <==> found == self@[0],
            r is Ok ==> r == Ok::<usize, ShapeError>(self@.last()),
            r is Err ==> r == Err::<usize, ShapeError>(
                ShapeError::DimensionMismatch { expected: self@[0], found },
            ),
    {
        match self.check_input(found) {
            Ok(()) => Ok(self.output_len()),
            Err(e) => Err(e),
        }
    }

    /// Checks that a target vector of length `found` fits the output layer.
    pub fn check_target(&self, found: usize) -> (r: Result<(), ShapeError>)
        requires
            self.well_formed(),
        ensures
            r is Ok <==> found == self@.last(),
            r is Err ==> r == Err::<(), ShapeError>(
                ShapeError::DimensionMismatch { expected: self@.last(), found },
            ),
    {
        let expected = self.sizes[self.sizes.len() - 1];
        if found == expected {
            Ok(())
        } else {
            Err(ShapeError::DimensionMismatch { expected, found })
        }
    }
}

} // verus!
