//! Concrete paths: what is left of a variable once its dynamic segments are
//! evaluated.

use vstd::prelude::*;
use crate::scalar::Scalar;
use crate::scalar::ScalarView;

verus! {

/// What a [`Path`] stands for: its segments, in order.
pub type PathView = Seq<ScalarView>;

/// A sequence of scalars that names a place in the data: a root name
/// followed by the members to take, one after the other.
#[derive(Debug, PartialEq, Eq)]
pub struct Path {
    segments: Vec<Scalar>,
}

impl View for Path {
    type V = PathView;

    closed spec fn view(&self) -> PathView {
        self.segments@.map_values(|segment: Scalar| segment@)
    }
}

impl Path {
    /// The path that consists of `root` alone.
    pub fn with_index(root: Scalar) -> (path: Path)
        ensures
            path@ == seq![root@],
    {
        let mut segments: Vec<Scalar> = Vec::new();
        segments.push(root);
        let path = Path { segments };
        assert(path@ =~= seq![root@]);
        path
    }

    /// Adds `index` as the last segment.
    pub fn push(&mut self, index: Scalar)
        ensures
            final(self)@ == old(self)@.push(index@),
    {
        self.segments.push(index);
        assert(self@ =~= old(self)@.push(index@));
    }

    /// The number of segments.
    pub fn len(&self) -> (n: usize)
        ensures
            n == self@.len(),
    {
        self.segments.len()
    }

    /// The segment at position `i`, counted from zero, if there is one.
    pub fn get(&self, i: usize) -> (segment: Option<&Scalar>)
        ensures
            match segment {
                Some(s) => i < self@.len() && s@ == self@[i as int],
                None => i >= self@.len(),
            },
    {
        if i < self.segments.len() {
            Some(&self.segments[i])
        } else {
            None
        }
    }
}

} // verus!
