//! The meaning space in which responses and answers are compared.
use vstd::prelude::*;

verus! {

/// Distance metrics for the meaning space.
#[derive(PartialEq, Eq, Structural, Clone, Copy, Debug)]
pub enum DistanceMetric {
    Cosine,
    Euclidean,
    Manhattan,
    Hamming,
}

/// The single embedding space in which responses are compared with
/// intended answers.
#[derive(PartialEq, Eq, Structural, Clone, Copy, Debug)]
pub struct MeaningSpace {
    pub dimension: usize,
    pub distance_metric: DistanceMetric,
}

impl MeaningSpace {
    /// A space of `dimension` dimensions measured with `metric`.
    pub fn new(dimension: usize, metric: DistanceMetric) -> (space: Self)
        ensures
            space.dimension == dimension,
            space.distance_metric == metric,
    {
        MeaningSpace { dimension, distance_metric: metric }
    }
}

} // verus!
