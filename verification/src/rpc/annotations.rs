use vstd::prelude::*;

verus! {

/// A JSON value carried along with an annotation.
#[verifier::external_type_specification]
#[verifier::external_body]
pub struct ExJsonValue(serde_json::Value);

#[derive(Debug, Clone, Copy, PartialEq, Eq, Structural)]
pub enum AnnotationType {
    Selection,
    Find,
}

#[derive(Default, Debug, Clone, Copy, PartialEq, Eq, Structural)]
pub struct AnnotationRange {
    pub start_line: usize,
    pub start_col: usize,
    pub end_line: usize,
    pub end_col: usize,
}

impl AnnotationRange {
    /// Builds a range from its wire form `[start_line, start_col, end_line, end_col]`.
    pub fn from_array(seq: [usize; 4]) -> (range: AnnotationRange)
        ensures
            range == (AnnotationRange {
                start_line: seq[0],
                start_col: seq[1],
                end_line: seq[2],
                end_col: seq[3],
            }),
    {
        AnnotationRange { start_line: seq[0], start_col: seq[1], end_line: seq[2], end_col: seq[3] }
    }
}

#[derive(Debug, Clone)]
pub struct Annotation {
    pub annotation_type: AnnotationType,
    pub ranges: Vec<AnnotationRange>,
    pub payloads: Option<Vec<serde_json::Value>>,
}

} // verus!
