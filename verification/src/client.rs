//! Messages the editing core sends to a client view: buffer updates made of
//! line-cache operations, commands and requests.

use vstd::prelude::*;

use crate::annotations::AnnotationSlice;
use crate::editor::ViewId;
use crate::rpc::theme::Style;

verus! {

/// One rendered line as sent to a client: its text (absent when only the
/// cursors changed), cursor offsets, encoded style triples and its logical
/// line number.
#[derive(Debug)]
pub struct Line {
    pub text: Option<String>,
    pub cursors: Vec<usize>,
    pub styles: Vec<usize>,
    pub ln: usize,
}

/// The name clients use for a line carried by an update.
pub type LineUpdate = Line;

impl Line {
    /// A line with no text, cursors or styles.
    pub fn empty() -> (line: Line)
        ensures
            line.text is None,
            line.cursors@.len() == 0,
            line.styles@.len() == 0,
            line.ln == 0,
    {
        Line { text: None, cursors: Vec::new(), styles: Vec::new(), ln: 0 }
    }
}

#[derive(Debug, Clone, Copy, PartialEq, Eq, Structural)]
pub enum OpType {
    Insert,
    Skip,
    Invalidate,
    Copy,
    Update,
}

#[derive(Debug)]
pub struct UpdateOp {
    pub op: OpType,
    pub n: usize,
    pub lines: Option<Vec<Line>>,
    pub first_line_number: Option<usize>,
}

impl UpdateOp {
    /// Marks `n` lines of the client's cache as invalid.
    pub fn invalidate(n: usize) -> (o: Self)
        ensures
            o.op == OpType::Invalidate && o.n == n && o.lines is None && o.first_line_number is None,
    {
        UpdateOp { op: OpType::Invalidate, n, lines: None, first_line_number: None }
    }

    /// Drops `n` lines of the client's cache.
    pub fn skip(n: usize) -> (o: Self)
        ensures
            o.op == OpType::Skip && o.n == n && o.lines is None && o.first_line_number is None,
    {
        UpdateOp { op: OpType::Skip, n, lines: None, first_line_number: None }
    }

    /// Keeps `n` lines of the client's cache, the first numbered `line`.
    pub fn copy(n: usize, line: usize) -> (o: Self)
        ensures
            o.op == OpType::Copy && o.n == n && o.lines is None && o.first_line_number == Some(line),
    {
        UpdateOp { op: OpType::Copy, n, lines: None, first_line_number: Some(line) }
    }

    /// Inserts freshly rendered lines.
    pub fn insert(lines: Vec<Line>) -> (o: Self)
        ensures
            o.op == OpType::Insert && o.n == lines@.len() && o.lines == Some(lines)
                && o.first_line_number is None,
    {
        let n = lines.len();
        UpdateOp { op: OpType::Insert, n, lines: Some(lines), first_line_number: None }
    }

    /// Updates the cursors of lines already in the client's cache.
    pub fn update(lines: Vec<Line>, line_opt: Option<usize>) -> (o: Self)
        ensures
            o.op == OpType::Update && o.n == lines@.len() && o.lines == Some(lines)
                && o.first_line_number == line_opt,
    {
        let n = lines.len();
        UpdateOp { op: OpType::Update, n, lines: Some(lines), first_line_number: line_opt }
    }
}

#[derive(Debug)]
pub struct Update {
    pub ops: Vec<UpdateOp>,
    pub pristine: bool,
    pub annotations: Vec<AnnotationSlice>,
}

#[derive(Debug)]
pub enum Command {
    Scroll { line: usize, col: usize },
    Idle { token: usize },
    ShowHover { req_id: usize, content: String },
    DefineStyle { style_id: usize, style: Style },
}

/// A batch of strings whose rendered widths are requested.
#[derive(Debug)]
pub struct WidthReq {
    pub id: usize,
    pub strings: Vec<String>,
}

#[derive(Debug)]
pub enum Request {
    MeasureText { items: Vec<WidthReq> },
}

#[derive(Debug)]
pub enum Payload {
    BufferUpdate(Update),
    Command(Command),
    Request(Request),
}

#[derive(Debug)]
pub struct Message {
    pub view_id: Option<ViewId>,
    pub payload: Payload,
}

} // verus!
