//! What a data set's manifest says of its shape.

use vstd::prelude::*;

verus! {

/// The manifest of one data set.
#[derive(Clone, Debug)]
pub struct Manifest {
    /// For each dimension, the line numbers along it.
    pub dimensions: Vec<Vec<i32>>,
    /// The number of samples in a trace.
    pub samples: i32,
}

impl Manifest {
    /// The dimensions that can be sliced along: `0`, `1`, and so on, one
    /// for each entry of `dimensions`.
    pub fn dimension_indices(&self) -> (indices: Vec<usize>)
        ensures
            indices@ == Seq::new(self.dimensions@.len(), |i: int| i as usize),
    {
        let mut indices: Vec<usize> = Vec::new();
        let mut i: usize = 0;
        while i < self.dimensions.len()
            invariant
                i <= self.dimensions@.len(),
                indices@ == Seq::new(i as nat, |k: int| k as usize),
            decreases self.dimensions@.len() - i,
        {
            indices.push(i);
            i = i + 1;
            assert(indices@ =~= Seq::new(i as nat, |k: int| k as usize));
        }
        indices
    }

    /// Whether `dim` is one of the data set's dimensions.
    pub fn has_dimension(&self, dim: usize) -> (known: bool)
        ensures
            known == (dim < self.dimensions@.len()),
    {
        dim < self.dimensions.len()
    }

    /// The line numbers along dimension `dim`.
    pub fn lines(&self, dim: usize) -> (lines: Vec<i32>)
        requires
            dim < self.dimensions@.len(),
        ensures
            lines@ == self.dimensions@[dim as int]@,
    {
        let along = &self.dimensions[dim];
        let mut lines: Vec<i32> = Vec::new();
        let mut i: usize = 0;
        while i < along.len()
            invariant
                i <= along@.len(),
                lines@ == along@.subrange(0, i as int),
            decreases along@.len() - i,
        {
            lines.push(along[i]);
            i = i + 1;
            assert(lines@ =~= along@.subrange(0, i as int));
        }
        assert(lines@ =~= along@);
        lines
    }
}

} // verus!
