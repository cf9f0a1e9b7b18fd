//! What the frontend does with each message the core sends to a view: a
//! buffer update goes into the view's line cache, commands and requests
//! become actions for the view, which carries them out.

use vstd::prelude::*;

use crate::client::{Command, Message, Payload, Request};
use crate::editor::ViewId;
use crate::frontend::linecache::{annotation_selections, apply_ops, other_annotations, selections_fit, LineCache};

verus! {

/// What the view does after a message.
#[derive(Debug, Clone, Copy, PartialEq, Eq, Structural)]
pub enum FrontendAction {
    /// Nothing: the message is not for a view, or asks for nothing.
    Ignored,
    /// The line cache changed; redraw the lines from it.
    Refresh,
    /// Scroll so that this line is visible, and redraw.
    ScrollTo(usize),
    /// Add the style with this id to the style map.
    DefineStyle(usize),
    /// Measure the strings of this many batches and answer with one
    /// measurement per batch.
    MeasureText(usize),
}

/// The action a message to a view leads to.
pub open spec fn frontend_action(msg: Message) -> FrontendAction {
    match msg.payload {
        Payload::BufferUpdate(_) => if msg.view_id is Some {
            FrontendAction::Refresh
        } else {
            FrontendAction::Ignored
        },
        Payload::Command(Command::Scroll { line, .. }) => FrontendAction::ScrollTo(line),
        Payload::Command(Command::DefineStyle { style_id, .. }) => FrontendAction::DefineStyle(style_id),
        Payload::Command(_) => FrontendAction::Ignored,
        Payload::Request(Request::MeasureText { items }) => FrontendAction::MeasureText(items@.len() as usize),
    }
}

/// Handles one message from the core to the view `view_id`: a buffer
/// update for the view is applied to its line cache (one without a view is
/// dropped), a scroll or a style definition is passed on, and a request to
/// measure text asks for one answer per batch. An update for another view
/// and a hover, which the view cannot show, are left out.
pub fn frontend_step(cache: &mut LineCache, view_id: ViewId, msg: Message) -> (a: FrontendAction)
    requires
        msg.payload is BufferUpdate && msg.view_id is Some ==> msg.view_id == Some(view_id),
        match msg.payload {
            Payload::BufferUpdate(u) => msg.view_id is Some ==> selections_fit(
                apply_ops(old(cache).spec_lines(), u.ops@),
                u.annotations@,
            ),
            _ => true,
        },
        !(msg.payload matches Payload::Command(Command::ShowHover { .. })),
    ensures
        a == frontend_action(msg),
        match msg.payload {
            Payload::BufferUpdate(u) => if msg.view_id is Some {
                &&& final(cache).spec_lines() == apply_ops(old(cache).spec_lines(), u.ops@)
                &&& final(cache).spec_selections() == annotation_selections(final(cache).spec_lines(), u.annotations@)
                &&& final(cache).spec_annotations() == other_annotations(u.annotations@)
            } else {
                *final(cache) == *old(cache)
            },
            _ => *final(cache) == *old(cache),
        },
{
    match msg.payload {
        Payload::BufferUpdate(update) => {
            if msg.view_id.is_some() {
                cache.apply_update(update);
                FrontendAction::Refresh
            } else {
                FrontendAction::Ignored
            }
        },
        Payload::Command(cmd) => match cmd {
            Command::Scroll { line, .. } => FrontendAction::ScrollTo(line),
            Command::DefineStyle { style_id, .. } => FrontendAction::DefineStyle(style_id),
            _ => FrontendAction::Ignored,
        },
        Payload::Request(Request::MeasureText { items }) => FrontendAction::MeasureText(items.len()),
    }
}

} // verus!
