use vstd::prelude::*;

use crate::editor::ViewId;

verus! {

#[derive(Clone, Debug)]
pub struct Query {
    pub id: usize,
    pub chars: String,
    pub case_sensitive: bool,
    pub is_regex: bool,
    pub whole_words: bool,
    pub matches: usize,
    pub lines: Vec<usize>,
}

#[derive(Clone, Debug)]
pub struct FindStatus {
    pub view_id: ViewId,
    pub queries: Vec<Query>,
}

#[derive(Clone, Debug)]
pub struct Status {
    chars: String,
    preserve_case: bool,
}

#[derive(Clone, Debug)]
pub struct ReplaceStatus {
    view_id: ViewId,
    status: Status,
}

} // verus!
