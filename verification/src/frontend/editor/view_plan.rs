//! What an editing view does for each action it receives: the edit
//! notifications and requests it sends to the core, and the changes to
//! the view itself. The view performs the effects in order.

use vstd::prelude::*;

use crate::frontend::editor::linecache::Selection;
use crate::rpc::{Action, Mode, Motion, PluginAction, Quantity};

verus! {

/// Edit notifications a view sends to the core (all but a paste, which
/// carries text).
#[derive(Debug, Clone, Copy, PartialEq, Eq, Structural)]
pub enum EditNotification {
    MoveUp,
    MoveDown,
    MoveLeft,
    MoveRight,
    MoveToLeftEndOfLine,
    MoveToRightEndOfLine,
    ScrollPageUp,
    ScrollPageDown,
    MoveWordLeft,
    MoveWordRight,
    SelectAll,
    MoveUpAndModifySelection,
    MoveDownAndModifySelection,
    MoveLeftAndModifySelection,
    MoveRightAndModifySelection,
    MoveToLeftEndOfLineAndModifySelection,
    MoveToRightEndOfLineAndModifySelection,
    MoveWordLeftAndModifySelection,
    MoveWordRightAndModifySelection,
    DeleteWordBackward,
    DeleteBackward,
    DeleteWordForward,
    DeleteForward,
    DeleteToBeginningOfLine,
    AddSelectionAbove,
    AddSelectionBelow,
    Undo,
    Redo,
    CollapseSelections,
    InsertNewline,
    Indent,
    Outdent,
    InsertTab,
    DuplicateLine,
    Yank,
    InsertChar(char),
}

/// Edit requests a view sends to the core, whose replies it waits for.
#[derive(Debug, Clone, Copy, PartialEq, Eq, Structural)]
pub enum EditRequest {
    Cut,
    Copy,
}

/// One thing a view does in answer to an action.
#[derive(Debug, PartialEq)]
pub enum ViewEffect {
    Edit(EditNotification),
    Paste(String),
    Request(EditRequest),
    Open(Option<String>),
    Split(Option<String>),
    Save(Option<String>),
    SetMode(Mode),
    SetTheme(String),
    SetLanguage(String),
    Plugin(PluginAction),
    Close,
    ToggleLineNumbers,
    IncreaseFontSize,
    DecreaseFontSize,
    ExecuteCommand,
}

/// An effect with its strings as characters.
pub enum EffectView {
    Edit(EditNotification),
    Paste(Seq<char>),
    Request(EditRequest),
    Open(Option<Seq<char>>),
    Split(Option<Seq<char>>),
    Save(Option<Seq<char>>),
    SetMode(Mode),
    SetTheme(Seq<char>),
    SetLanguage(Seq<char>),
    PluginStart(Seq<char>),
    PluginStop(Seq<char>),
    Close,
    ToggleLineNumbers,
    IncreaseFontSize,
    DecreaseFontSize,
    ExecuteCommand,
}

pub open spec fn opt_chars(s: Option<String>) -> Option<Seq<char>> {
    match s {
        Some(x) => Some(x@),
        None => None,
    }
}

/// The view of an effect.
pub open spec fn effect_view(e: ViewEffect) -> EffectView {
    match e {
        ViewEffect::Edit(n) => EffectView::Edit(n),
        ViewEffect::Paste(s) => EffectView::Paste(s@),
        ViewEffect::Request(r) => EffectView::Request(r),
        ViewEffect::Open(f) => EffectView::Open(opt_chars(f)),
        ViewEffect::Split(f) => EffectView::Split(opt_chars(f)),
        ViewEffect::Save(f) => EffectView::Save(opt_chars(f)),
        ViewEffect::SetMode(m) => EffectView::SetMode(m),
        ViewEffect::SetTheme(t) => EffectView::SetTheme(t@),
        ViewEffect::SetLanguage(l) => EffectView::SetLanguage(l@),
        ViewEffect::Plugin(PluginAction::Start(id)) => EffectView::PluginStart(id@),
        ViewEffect::Plugin(PluginAction::Stop(id)) => EffectView::PluginStop(id@),
        ViewEffect::Close => EffectView::Close,
        ViewEffect::ToggleLineNumbers => EffectView::ToggleLineNumbers,
        ViewEffect::IncreaseFontSize => EffectView::IncreaseFontSize,
        ViewEffect::DecreaseFontSize => EffectView::DecreaseFontSize,
        ViewEffect::ExecuteCommand => EffectView::ExecuteCommand,
    }
}

/// `n` times the same edit notification.
pub open spec fn repeat_edit(n: nat, e: EditNotification) -> Seq<EffectView> {
    Seq::new(n, |i: int| EffectView::Edit(e))
}

pub open spec fn edit(e: EditNotification) -> EffectView {
    EffectView::Edit(e)
}

/// The quantity of an action, one when none is given.
pub open spec fn quantity_or_one(q: Option<Quantity>) -> Quantity {
    match q {
        Some(q) => q,
        None => Quantity::Number(1),
    }
}

/// A motion repeated `n` times; a motion with no notification fails
/// unless repeated zero times.
pub open spec fn repeat_motion(n: usize, e: Option<EditNotification>) -> (bool, Seq<EffectView>) {
    match e {
        Some(e) => (true, repeat_edit(n as nat, e)),
        None => (n == 0, Seq::empty()),
    }
}

/// Notification moving the caret by a character or line.
pub open spec fn move_by_unit(m: Motion) -> Option<EditNotification> {
    match m {
        Motion::Up => Some(EditNotification::MoveUp),
        Motion::Down => Some(EditNotification::MoveDown),
        Motion::Left => Some(EditNotification::MoveLeft),
        Motion::Right => Some(EditNotification::MoveRight),
        Motion::First => Some(EditNotification::MoveToLeftEndOfLine),
        Motion::FirstOccupied => Some(EditNotification::MoveToLeftEndOfLine),
        Motion::Last => Some(EditNotification::MoveToRightEndOfLine),
        _ => None,
    }
}

/// Notification moving the caret by a page.
pub open spec fn move_by_page(m: Motion) -> Option<EditNotification> {
    match m {
        Motion::Up => Some(EditNotification::ScrollPageUp),
        Motion::Down => Some(EditNotification::ScrollPageDown),
        _ => None,
    }
}

/// Notification moving the caret by a word.
pub open spec fn move_by_word(m: Motion) -> Option<EditNotification> {
    match m {
        Motion::Left => Some(EditNotification::MoveWordLeft),
        Motion::Right => Some(EditNotification::MoveWordRight),
        _ => None,
    }
}

/// Notification extending the selection by a character or line.
pub open spec fn select_by_unit(m: Motion) -> Option<EditNotification> {
    match m {
        Motion::Up => Some(EditNotification::MoveUpAndModifySelection),
        Motion::Down => Some(EditNotification::MoveDownAndModifySelection),
        Motion::Left => Some(EditNotification::MoveLeftAndModifySelection),
        Motion::Right => Some(EditNotification::MoveRightAndModifySelection),
        Motion::First => Some(EditNotification::MoveToLeftEndOfLineAndModifySelection),
        Motion::FirstOccupied => Some(EditNotification::MoveToLeftEndOfLineAndModifySelection),
        Motion::Last => Some(EditNotification::MoveToRightEndOfLineAndModifySelection),
        _ => None,
    }
}

/// Notification extending the selection by a word.
pub open spec fn select_by_word(m: Motion) -> Option<EditNotification> {
    match m {
        Motion::Left => Some(EditNotification::MoveWordLeftAndModifySelection),
        Motion::Right => Some(EditNotification::MoveWordRightAndModifySelection),
        _ => None,
    }
}

/// The last line a selection of `n` whole lines from `current` reaches,
/// limited to the lines held.
pub open spec fn select_lines_last(current: usize, n: usize, line_count: usize) -> int {
    if line_count > current + n {
        current + n
    } else {
        line_count as int
    }
}

/// Whether a view handles an action, and what it does for it.
pub open spec fn action_plan(action: Action, current_line: usize, line_count: usize, clipboard: Option<Seq<char>>) -> (bool, Seq<EffectView>) {
    match action {
        Action::Open(f) => (true, seq![EffectView::Open(opt_chars(f))]),
        Action::Split(f) => (true, seq![EffectView::Split(opt_chars(f))]),
        Action::Save(f) => (true, seq![EffectView::Save(opt_chars(f))]),
        Action::InsertChar(ch) => (true, if ch as u32 >= 0x20 {
            seq![edit(EditNotification::InsertChar(ch))]
        } else {
            Seq::empty()
        }),
        Action::SetMode(m) => (true, seq![EffectView::SetMode(m)]),
        Action::SetTheme(t) => (true, seq![EffectView::SetTheme(t@)]),
        Action::SetLanguage(l) => (true, seq![EffectView::SetLanguage(l@)]),
        Action::Plugin(PluginAction::Start(id)) => (true, seq![EffectView::PluginStart(id@)]),
        Action::Plugin(PluginAction::Stop(id)) => (true, seq![EffectView::PluginStop(id@)]),
        Action::Cut => (true, seq![EffectView::Request(EditRequest::Cut)]),
        Action::Copy => (true, seq![EffectView::Request(EditRequest::Copy)]),
        Action::Yank => (true, seq![edit(EditNotification::Yank)]),
        Action::Paste => (true, seq![
            EffectView::Paste(
                match clipboard {
                    Some(c) => c,
                    None => Seq::empty(),
                },
            ),
        ]),
        Action::Close => (true, seq![EffectView::Close]),
        Action::ToggleLineNumbers => (true, seq![EffectView::ToggleLineNumbers]),
        Action::Undo => (true, seq![edit(EditNotification::Undo)]),
        Action::Redo => (true, seq![edit(EditNotification::Redo)]),
        Action::ClearSelection => (true, seq![edit(EditNotification::CollapseSelections)]),
        Action::NewLine => (true, seq![edit(EditNotification::InsertNewline)]),
        Action::Indent => (true, seq![edit(EditNotification::Indent)]),
        Action::Outdent => (true, seq![edit(EditNotification::Outdent)]),
        Action::InsertTab => (true, seq![edit(EditNotification::InsertTab)]),
        Action::DuplicateLine => (true, seq![edit(EditNotification::DuplicateLine)]),
        Action::IncreaseFontSize => (true, seq![EffectView::IncreaseFontSize]),
        Action::DecreaseFontSize => (true, seq![EffectView::DecreaseFontSize]),
        Action::ExecuteCommand => (true, seq![EffectView::ExecuteCommand]),
        Action::Motion((m, q)) => match quantity_or_one(q) {
            Quantity::Number(n) => repeat_motion(n, move_by_unit(m)),
            Quantity::Page(n) => repeat_motion(n, move_by_page(m)),
            Quantity::Word(n) => repeat_motion(n, move_by_word(m)),
            _ => (false, Seq::empty()),
        },
        Action::Select((m, q)) => match quantity_or_one(q) {
            Quantity::All => (true, seq![edit(EditNotification::SelectAll)]),
            Quantity::Line(n) => {
                let last = select_lines_last(current_line, n, line_count);
                let downs: nat = if last > current_line { (last - current_line) as nat } else { 0 };
                (true, seq![
                    edit(EditNotification::MoveToLeftEndOfLine),
                    edit(EditNotification::MoveToRightEndOfLineAndModifySelection),
                ] + repeat_edit(downs, EditNotification::MoveDownAndModifySelection) + seq![
                    edit(EditNotification::MoveToRightEndOfLineAndModifySelection),
                ])
            },
            Quantity::Number(n) => repeat_motion(n, select_by_unit(m)),
            Quantity::Word(n) => repeat_motion(n, select_by_word(m)),
            _ => (false, Seq::empty()),
        },
        Action::Delete((m, q)) => (true, match m {
            Motion::Left => match quantity_or_one(q) {
                Quantity::Word(n) => repeat_edit(n as nat, EditNotification::DeleteWordBackward),
                _ => seq![edit(EditNotification::DeleteBackward)],
            },
            Motion::Right => match quantity_or_one(q) {
                Quantity::Word(n) => repeat_edit(n as nat, EditNotification::DeleteWordForward),
                _ => seq![edit(EditNotification::DeleteForward)],
            },
            Motion::Up => seq![
                edit(EditNotification::MoveUp),
                edit(EditNotification::MoveToLeftEndOfLine),
                edit(EditNotification::MoveToRightEndOfLineAndModifySelection),
                edit(EditNotification::DeleteBackward),
            ],
            Motion::Down => seq![
                edit(EditNotification::MoveDown),
                edit(EditNotification::MoveToLeftEndOfLine),
                edit(EditNotification::MoveToRightEndOfLineAndModifySelection),
                edit(EditNotification::DeleteBackward),
            ],
            Motion::First => seq![edit(EditNotification::DeleteToBeginningOfLine)],
            Motion::Last => seq![
                edit(EditNotification::MoveToRightEndOfLine),
                edit(EditNotification::DeleteToBeginningOfLine),
            ],
            _ => Seq::empty(),
        }),
        Action::AddCursor(m) => (true, match m {
            Motion::Up => seq![edit(EditNotification::AddSelectionAbove)],
            Motion::Down => seq![edit(EditNotification::AddSelectionBelow)],
            _ => Seq::empty(),
        }),
        _ => (false, Seq::empty()),
    }
}

proof fn lemma_repeat_edit_only(n: nat, e: EditNotification, x: EffectView, j: int)
    requires
        0 <= j < repeat_edit(n, e).len(),
    ensures
        repeat_edit(n, e)[j] == EffectView::Edit(e),
{
}

/// Undo and redo are distinct, named notifications: the view handles the
/// undo action by sending exactly one `Undo` notification and the redo
/// action by sending exactly one `Redo` notification, and no other action
/// sends either.
pub proof fn law_undo_redo_notifications(
    action: Action,
    current_line: usize,
    line_count: usize,
    clipboard: Option<Seq<char>>,
)
    ensures
        action is Undo ==> action_plan(action, current_line, line_count, clipboard) == (
            true,
            seq![EffectView::Edit(EditNotification::Undo)],
        ),
        action is Redo ==> action_plan(action, current_line, line_count, clipboard) == (
            true,
            seq![EffectView::Edit(EditNotification::Redo)],
        ),
        forall|j: int|
            0 <= j < action_plan(action, current_line, line_count, clipboard).1.len() ==> {
                let e = #[trigger] action_plan(action, current_line, line_count, clipboard).1[j];
                &&& e == EffectView::Edit(EditNotification::Undo) ==> action is Undo
                &&& e == EffectView::Edit(EditNotification::Redo) ==> action is Redo
            },
{
    let plan = action_plan(action, current_line, line_count, clipboard).1;
    assert forall|j: int| 0 <= j < plan.len() implies {
        &&& #[trigger] plan[j] == EffectView::Edit(EditNotification::Undo) ==> action is Undo
        &&& plan[j] == EffectView::Edit(EditNotification::Redo) ==> action is Redo
    } by {
        match action {
            Action::Motion((m, q)) => {
                match quantity_or_one(q) {
                    Quantity::Number(n) => {
                        if let Some(e) = move_by_unit(m) { lemma_repeat_edit_only(n as nat, e, plan[j], j); }
                    },
                    Quantity::Page(n) => {
                        if let Some(e) = move_by_page(m) { lemma_repeat_edit_only(n as nat, e, plan[j], j); }
                    },
                    Quantity::Word(n) => {
                        if let Some(e) = move_by_word(m) { lemma_repeat_edit_only(n as nat, e, plan[j], j); }
                    },
                    _ => {},
                }
            },
            Action::Select((m, q)) => {
                match quantity_or_one(q) {
                    Quantity::Line(n) => {
                        let last = select_lines_last(current_line, n, line_count);
                        let downs: nat = if last > current_line { (last - current_line) as nat } else { 0 };
                        let head = seq![
                            edit(EditNotification::MoveToLeftEndOfLine),
                            edit(EditNotification::MoveToRightEndOfLineAndModifySelection),
                        ];
                        let mid = repeat_edit(downs, EditNotification::MoveDownAndModifySelection);
                        if 2 <= j < 2 + mid.len() {
                            assert(plan[j] == mid[j - 2]);
                            lemma_repeat_edit_only(downs, EditNotification::MoveDownAndModifySelection, plan[j], j - 2);
                        }
                    },
                    Quantity::Number(n) => {
                        if let Some(e) = select_by_unit(m) { lemma_repeat_edit_only(n as nat, e, plan[j], j); }
                    },
                    Quantity::Word(n) => {
                        if let Some(e) = select_by_word(m) { lemma_repeat_edit_only(n as nat, e, plan[j], j); }
                    },
                    _ => {},
                }
            },
            Action::Delete((m, q)) => {
                match m {
                    Motion::Left => {
                        if let Quantity::Word(n) = quantity_or_one(q) {
                            lemma_repeat_edit_only(n as nat, EditNotification::DeleteWordBackward, plan[j], j);
                        }
                    },
                    Motion::Right => {
                        if let Quantity::Word(n) = quantity_or_one(q) {
                            lemma_repeat_edit_only(n as nat, EditNotification::DeleteWordForward, plan[j], j);
                        }
                    },
                    _ => {},
                }
            },
            _ => {},
        }
    }
}

/// The action would not overflow the line arithmetic of a selection of
/// whole lines.
pub open spec fn action_plan_fits(action: Action, current_line: usize) -> bool {
    match action {
        Action::Select((_, Some(Quantity::Line(n)))) => current_line + n <= usize::MAX,
        _ => true,
    }
}

/// The views of a sequence of effects.
pub open spec fn effect_views(s: Seq<ViewEffect>) -> Seq<EffectView> {
    s.map_values(|x: ViewEffect| effect_view(x))
}

proof fn lemma_effect_views_push(s: Seq<ViewEffect>, e: ViewEffect)
    ensures
        effect_views(s.push(e)) == effect_views(s).push(effect_view(e)),
{
    assert(effect_views(s.push(e)) =~= effect_views(s).push(effect_view(e)));
}

fn push_repeated(effects: &mut Vec<ViewEffect>, n: usize, e: EditNotification)
    ensures
        effect_views(final(effects)@) == effect_views(old(effects)@) + repeat_edit(n as nat, e),
{
    let ghost before = effect_views(effects@);
    let mut k: usize = 0;
    while k < n
        invariant
            k <= n,
            effect_views(effects@) == before + repeat_edit(k as nat, e),
        decreases n - k,
    {
        let ghost prev = effects@;
        effects.push(ViewEffect::Edit(e));
        proof {
            lemma_effect_views_push(prev, ViewEffect::Edit(e));
            assert(repeat_edit((k + 1) as nat, e) =~= repeat_edit(k as nat, e).push(edit(e)));
            assert(before + repeat_edit((k + 1) as nat, e) =~= (before + repeat_edit(k as nat, e)).push(edit(e)));
        }
        k += 1;
    }
}

fn unit_move(m: Motion) -> (r: Option<EditNotification>)
    ensures
        r == move_by_unit(m),
{
    match m {
        Motion::Up => Some(EditNotification::MoveUp),
        Motion::Down => Some(EditNotification::MoveDown),
        Motion::Left => Some(EditNotification::MoveLeft),
        Motion::Right => Some(EditNotification::MoveRight),
        Motion::First => Some(EditNotification::MoveToLeftEndOfLine),
        Motion::FirstOccupied => Some(EditNotification::MoveToLeftEndOfLine),
        Motion::Last => Some(EditNotification::MoveToRightEndOfLine),
        _ => None,
    }
}

fn page_move(m: Motion) -> (r: Option<EditNotification>)
    ensures
        r == move_by_page(m),
{
    match m {
        Motion::Up => Some(EditNotification::ScrollPageUp),
        Motion::Down => Some(EditNotification::ScrollPageDown),
        _ => None,
    }
}

fn word_move(m: Motion) -> (r: Option<EditNotification>)
    ensures
        r == move_by_word(m),
{
    match m {
        Motion::Left => Some(EditNotification::MoveWordLeft),
        Motion::Right => Some(EditNotification::MoveWordRight),
        _ => None,
    }
}

fn unit_select(m: Motion) -> (r: Option<EditNotification>)
    ensures
        r == select_by_unit(m),
{
    match m {
        Motion::Up => Some(EditNotification::MoveUpAndModifySelection),
        Motion::Down => Some(EditNotification::MoveDownAndModifySelection),
        Motion::Left => Some(EditNotification::MoveLeftAndModifySelection),
        Motion::Right => Some(EditNotification::MoveRightAndModifySelection),
        Motion::First => Some(EditNotification::MoveToLeftEndOfLineAndModifySelection),
        Motion::FirstOccupied => Some(EditNotification::MoveToLeftEndOfLineAndModifySelection),
        Motion::Last => Some(EditNotification::MoveToRightEndOfLineAndModifySelection),
        _ => None,
    }
}

fn word_select(m: Motion) -> (r: Option<EditNotification>)
    ensures
        r == select_by_word(m),
{
    match m {
        Motion::Left => Some(EditNotification::MoveWordLeftAndModifySelection),
        Motion::Right => Some(EditNotification::MoveWordRightAndModifySelection),
        _ => None,
    }
}

/// Runs a motion `n` times; without a notification for it, fails on the
/// first repetition.
fn repeated_motion(n: usize, e: Option<EditNotification>) -> (r: (bool, Vec<ViewEffect>))
    ensures
        (r.0, effect_views(r.1@)) == repeat_motion(n, e),
{
    let mut effects: Vec<ViewEffect> = Vec::new();
    match e {
        Some(e) => {
            push_repeated(&mut effects, n, e);
            assert(effect_views(effects@) =~= repeat_edit(n as nat, e));
            (true, effects)
        },
        None => {
            assert(effect_views(effects@) =~= Seq::<EffectView>::empty());
            (n == 0, effects)
        },
    }
}

fn single(e: ViewEffect) -> (r: Vec<ViewEffect>)
    ensures
        effect_views(r@) == seq![effect_view(e)],
{
    let mut v: Vec<ViewEffect> = Vec::new();
    v.push(e);
    assert(effect_views(v@) =~= seq![effect_view(e)]);
    v
}

fn edits(es: Vec<EditNotification>) -> (r: Vec<ViewEffect>)
    ensures
        effect_views(r@) == es@.map_values(|e: EditNotification| edit(e)),
{
    let mut v: Vec<ViewEffect> = Vec::new();
    let mut i: usize = 0;
    while i < es.len()
        invariant
            i <= es.len(),
            effect_views(v@) == es@.subrange(0, i as int).map_values(|e: EditNotification| edit(e)),
        decreases es.len() - i,
    {
        let ghost prev = v@;
        v.push(ViewEffect::Edit(es[i]));
        proof {
            lemma_effect_views_push(prev, ViewEffect::Edit(es[i as int]));
            assert(es@.subrange(0, i + 1).map_values(|e: EditNotification| edit(e)) =~= es@.subrange(
                0,
                i as int,
            ).map_values(|e: EditNotification| edit(e)).push(edit(es[i as int])));
        }
        i += 1;
    }
    assert(es@.subrange(0, i as int) =~= es@);
    v
}

/// What a view does for an action: whether it handles it, and the effects
/// it performs, in order. `current_line` is the line of the caret and
/// `line_count` the number of lines the view holds; `clipboard` is what a
/// paste inserts (nothing when empty).
pub fn handle_action(action: Action, current_line: usize, line_count: usize, clipboard: &Option<String>) -> (r: (bool, Vec<ViewEffect>))
    requires
        action_plan_fits(action, current_line),
    ensures
        (r.0, effect_views(r.1@)) == action_plan(action, current_line, line_count, opt_chars(*clipboard)),
{
    match action {
        Action::Open(f) => (true, single(ViewEffect::Open(f))),
        Action::Split(f) => (true, single(ViewEffect::Split(f))),
        Action::Save(f) => (true, single(ViewEffect::Save(f))),
        Action::InsertChar(ch) => {
            if ch as u32 >= 0x20 {
                (true, single(ViewEffect::Edit(EditNotification::InsertChar(ch))))
            } else {
                let v: Vec<ViewEffect> = Vec::new();
                assert(effect_views(v@) =~= Seq::<EffectView>::empty());
                (true, v)
            }
        },
        Action::SetMode(m) => (true, single(ViewEffect::SetMode(m))),
        Action::SetTheme(t) => (true, single(ViewEffect::SetTheme(t))),
        Action::SetLanguage(l) => (true, single(ViewEffect::SetLanguage(l))),
        Action::Plugin(p) => (true, single(ViewEffect::Plugin(p))),
        Action::Cut => (true, single(ViewEffect::Request(EditRequest::Cut))),
        Action::Copy => (true, single(ViewEffect::Request(EditRequest::Copy))),
        Action::Yank => (true, single(ViewEffect::Edit(EditNotification::Yank))),
        Action::Paste => {
            let text = match clipboard {
                Some(c) => c.clone(),
                None => String::new(),
            };
            (true, single(ViewEffect::Paste(text)))
        },
        Action::Close => (true, single(ViewEffect::Close)),
        Action::ToggleLineNumbers => (true, single(ViewEffect::ToggleLineNumbers)),
        Action::Undo => (true, single(ViewEffect::Edit(EditNotification::Undo))),
        Action::Redo => (true, single(ViewEffect::Edit(EditNotification::Redo))),
        Action::ClearSelection => (true, single(ViewEffect::Edit(EditNotification::CollapseSelections))),
        Action::NewLine => (true, single(ViewEffect::Edit(EditNotification::InsertNewline))),
        Action::Indent => (true, single(ViewEffect::Edit(EditNotification::Indent))),
        Action::Outdent => (true, single(ViewEffect::Edit(EditNotification::Outdent))),
        Action::InsertTab => (true, single(ViewEffect::Edit(EditNotification::InsertTab))),
        Action::DuplicateLine => (true, single(ViewEffect::Edit(EditNotification::DuplicateLine))),
        Action::IncreaseFontSize => (true, single(ViewEffect::IncreaseFontSize)),
        Action::DecreaseFontSize => (true, single(ViewEffect::DecreaseFontSize)),
        Action::ExecuteCommand => (true, single(ViewEffect::ExecuteCommand)),
        Action::Motion((m, q)) => {
            let q = match q {
                Some(q) => q,
                None => Quantity::default(),
            };
            match q {
                Quantity::Number(n) => repeated_motion(n, unit_move(m)),
                Quantity::Page(n) => repeated_motion(n, page_move(m)),
                Quantity::Word(n) => repeated_motion(n, word_move(m)),
                _ => {
                    let v: Vec<ViewEffect> = Vec::new();
                    assert(effect_views(v@) =~= Seq::<EffectView>::empty());
                    (false, v)
                },
            }
        },
        Action::Select((m, q)) => {
            let q = match q {
                Some(q) => q,
                None => Quantity::default(),
            };
            match q {
                Quantity::All => (true, single(ViewEffect::Edit(EditNotification::SelectAll))),
                Quantity::Line(n) => {
                    let last = if line_count > current_line + n {
                        current_line + n
                    } else {
                        line_count
                    };
                    let mut effects = edits(
                        vec![
                            EditNotification::MoveToLeftEndOfLine,
                            EditNotification::MoveToRightEndOfLineAndModifySelection,
                        ],
                    );
                    let downs: usize = if last > current_line { last - current_line } else { 0 };
                    push_repeated(&mut effects, downs, EditNotification::MoveDownAndModifySelection);
                    let ghost prev = effects@;
                    effects.push(ViewEffect::Edit(EditNotification::MoveToRightEndOfLineAndModifySelection));
                    proof {
                        lemma_effect_views_push(
                            prev,
                            ViewEffect::Edit(EditNotification::MoveToRightEndOfLineAndModifySelection),
                        );
                        let head = seq![
                            EditNotification::MoveToLeftEndOfLine,
                            EditNotification::MoveToRightEndOfLineAndModifySelection,
                        ];
                        assert(head.map_values(|e: EditNotification| edit(e)) =~= seq![
                            edit(EditNotification::MoveToLeftEndOfLine),
                            edit(EditNotification::MoveToRightEndOfLineAndModifySelection),
                        ]);
                    }
                    (true, effects)
                },
                Quantity::Number(n) => repeated_motion(n, unit_select(m)),
                Quantity::Word(n) => repeated_motion(n, word_select(m)),
                _ => {
                    let v: Vec<ViewEffect> = Vec::new();
                    assert(effect_views(v@) =~= Seq::<EffectView>::empty());
                    (false, v)
                },
            }
        },
        Action::Delete((m, q)) => {
            let q = match q {
                Some(q) => q,
                None => Quantity::default(),
            };
            let es: Vec<EditNotification> = match m {
                Motion::Left => match q {
                    Quantity::Word(n) => {
                        let mut effects: Vec<ViewEffect> = Vec::new();
                        push_repeated(&mut effects, n, EditNotification::DeleteWordBackward);
                        assert(effect_views(effects@) =~= repeat_edit(n as nat, EditNotification::DeleteWordBackward));
                        return (true, effects);
                    },
                    _ => vec![EditNotification::DeleteBackward],
                },
                Motion::Right => match q {
                    Quantity::Word(n) => {
                        let mut effects: Vec<ViewEffect> = Vec::new();
                        push_repeated(&mut effects, n, EditNotification::DeleteWordForward);
                        assert(effect_views(effects@) =~= repeat_edit(n as nat, EditNotification::DeleteWordForward));
                        return (true, effects);
                    },
                    _ => vec![EditNotification::DeleteForward],
                },
                Motion::Up => vec![
                    EditNotification::MoveUp,
                    EditNotification::MoveToLeftEndOfLine,
                    EditNotification::MoveToRightEndOfLineAndModifySelection,
                    EditNotification::DeleteBackward,
                ],
                Motion::Down => vec![
                    EditNotification::MoveDown,
                    EditNotification::MoveToLeftEndOfLine,
                    EditNotification::MoveToRightEndOfLineAndModifySelection,
                    EditNotification::DeleteBackward,
                ],
                Motion::First => vec![EditNotification::DeleteToBeginningOfLine],
                Motion::Last => vec![
                    EditNotification::MoveToRightEndOfLine,
                    EditNotification::DeleteToBeginningOfLine,
                ],
                _ => Vec::new(),
            };
            let ghost es_view = es@;
            let effects = edits(es);
            assert(effect_views(effects@) =~= es_view.map_values(|e: EditNotification| edit(e)));
            (true, effects)
        },
        Action::AddCursor(m) => {
            let es: Vec<EditNotification> = match m {
                Motion::Up => vec![EditNotification::AddSelectionAbove],
                Motion::Down => vec![EditNotification::AddSelectionBelow],
                _ => Vec::new(),
            };
            (true, edits(es))
        },
        _ => {
            let v: Vec<ViewEffect> = Vec::new();
            assert(effect_views(v@) =~= Seq::<EffectView>::empty());
            (false, v)
        },
    }
}

/// Whether a view draws a selection of a line of `line_len` bytes: it is
/// not empty and both its columns fall inside the line.
pub open spec fn selection_drawn(s: (usize, usize), line_len: usize) -> bool {
    s.0 != s.1 && s.0 < line_len && s.1 < line_len
}

/// The selections of a line that a focused view draws, as column ranges,
/// in order.
pub fn drawn_selections(selections: &[&Selection], line_len: usize) -> (r: Vec<(usize, usize)>)
    ensures
        r@ == selections@.map_values(|s: &Selection| (s.start_col, s.end_col)).filter(
            |s: (usize, usize)| selection_drawn(s, line_len),
        ),
{
    let ghost cols = selections@.map_values(|s: &Selection| (s.start_col, s.end_col));
    let mut r: Vec<(usize, usize)> = Vec::new();
    let mut i: usize = 0;
    while i < selections.len()
        invariant
            i <= selections@.len(),
            cols == selections@.map_values(|s: &Selection| (s.start_col, s.end_col)),
            r@ == cols.take(i as int).filter(|s: (usize, usize)| selection_drawn(s, line_len)),
        decreases selections@.len() - i,
    {
        proof {
            reveal_with_fuel(Seq::filter, 1);
            assert(cols.take(i + 1).drop_last() =~= cols.take(i as int));
        }
        let s = selections[i];
        if s.start_col != s.end_col && s.start_col < line_len && s.end_col < line_len {
            r.push((s.start_col, s.end_col));
        }
        i += 1;
    }
    proof {
        assert(cols.take(i as int) =~= cols);
    }
    r
}

} // verus!
