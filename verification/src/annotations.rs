//! Annotations the core attaches to a buffer update.

use vstd::prelude::*;

pub use crate::rpc::annotations::{AnnotationRange, AnnotationType};

verus! {

/// The annotations of one type over a range of lines.
#[derive(Debug)]
pub struct AnnotationSlice {
    pub annotation_type: AnnotationType,
    pub ranges: Vec<AnnotationRange>,
}

impl Clone for AnnotationSlice {
    fn clone(&self) -> (res: Self)
        ensures
            res.annotation_type == self.annotation_type,
            res.ranges@ == self.ranges@,
    {
        let mut ranges: Vec<AnnotationRange> = Vec::new();
        let mut i: usize = 0;
        while i < self.ranges.len()
            invariant
                i <= self.ranges@.len(),
                ranges@ == self.ranges@.take(i as int),
            decreases self.ranges@.len() - i,
        {
            ranges.push(self.ranges[i]);
            i += 1;
            assert(ranges@ =~= self.ranges@.take(i as int));
        }
        assert(ranges@ =~= self.ranges@);
        AnnotationSlice { annotation_type: self.annotation_type, ranges }
    }
}

} // verus!
