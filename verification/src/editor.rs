//! Buffers and views of the editing core, and an editor: the text of a
//! buffer with its edit history and the bookkeeping of undo groups.

use vstd::prelude::*;

use std::collections::BTreeSet;
use vstd::string::StringSliceAdditionalSpecFns;
use xi_rope::engine::{Engine, RevId};

use crate::selection::{InsertDrift, SelRegion};
use crate::utf16::str_eq;
use crate::text::{delta_apply, delta_base_len, line_hash_diff, text_bytes, Text, TextDelta};

verus! {

broadcast use vstd::laws_cmp::group_laws_cmp, vstd::std_specs::btree::group_btree_axioms;

/// The most undo groups that stay live; older ones are collected.
pub const MAX_UNDOS: usize = 300;

/// ViewIds are the primary means of routing messages between
/// xi-core and a client view.
#[derive(Debug, Clone, Copy, PartialEq, Eq, PartialOrd, Ord, Hash, Structural)]
pub struct ViewId(pub usize);

/// BufferIds uniquely identify open buffers.
#[derive(Debug, Clone, Copy, PartialEq, Eq, PartialOrd, Ord, Hash, Structural)]
pub struct BufferId(pub usize);

/// A span of a syntax scope sent by a plugin.
pub struct ScopeSpan {
    pub scope_id: u32,
    pub start: usize,
    pub end: usize,
}

/// A span of annotation data sent by a plugin.
pub struct DataSpan {
    pub start: usize,
    pub end: usize,
    pub data: String,
}

/// The kind of an edit, which decides whether it joins the undo group of
/// the edit before it.
#[derive(PartialEq, Eq, Clone, Copy, Debug, Structural)]
pub enum EditType {
    /// A catchall for edits that don't fit elsewhere, and which should
    /// always have their own undo groups; used for things like cut/copy/paste.
    Other,
    /// An insert from the keyboard/IME (not a paste or a yank).
    InsertChars,
    InsertNewline,
    /// An indentation adjustment.
    Indent,
    Delete,
    Undo,
    Redo,
    Transpose,
    Surround,
}

impl EditType {
    pub open spec fn spec_breaks_undo_group(self, previous: EditType) -> bool {
        self == EditType::Other || self == EditType::Transpose || self != previous
    }

    /// Whether a new undo group starts between an edit of kind `previous`
    /// and one of this kind: always after other edits and transposes, and
    /// whenever the kind changes.
    pub fn breaks_undo_group(self, previous: EditType) -> (b: bool)
        ensures
            b == self.spec_breaks_undo_group(previous),
    {
        self == EditType::Other || self == EditType::Transpose || self != previous
    }
}

/// The last region of a selection that is not a caret.
pub fn last_selection_region(regions: &[SelRegion]) -> (r: Option<&SelRegion>)
    ensures
        match r {
            Some(x) => exists|i: int|
                0 <= i < regions@.len() && *x == regions@[i] && !regions@[i].is_caret_spec() && (
                forall|j: int| i < j < regions@.len() ==> #[trigger] regions@[j].is_caret_spec()),
            None => forall|j: int| 0 <= j < regions@.len() ==> #[trigger] regions@[j].is_caret_spec(),
        },
{
    let mut i: usize = regions.len();
    while i > 0
        invariant
            i <= regions@.len(),
            forall|j: int| i <= j < regions@.len() ==> #[trigger] regions@[j].is_caret_spec(),
        decreases i,
    {
        i -= 1;
        if !regions[i].is_caret() {
            return Some(&regions[i]);
        }
    }
    None
}

#[verifier::external_type_specification]
#[verifier::external_body]
pub struct ExEngine(Engine);

/// The text at the head of an engine's history.
pub uninterp spec fn engine_text(e: Engine) -> Seq<u8>;

#[verifier::external_type_specification]
#[verifier::external_body]
pub struct ExRevId(RevId);

/// The undo groups an engine holds undone.
pub uninterp spec fn engine_undone_groups(e: Engine) -> Set<usize>;

/// The revision at the head of an engine's history (`get_head_rev_id`).
pub uninterp spec fn engine_head_rev(e: Engine) -> RevId;

/// Whether an engine holds the same text at two revisions
/// (`is_equivalent_revision`).
pub uninterp spec fn engine_equivalent(e: Engine, a: RevId, b: RevId) -> bool;

/// `Engine::new` of xi-rope: an engine whose history starts with the given
/// text, with no undo group undone.
#[verifier::external_body]
fn engine_new(text: &Text) -> (e: Engine)
    ensures
        engine_text(e) == text_bytes(*text),
        engine_undone_groups(e) == Set::<usize>::empty(),
{
    Engine::new(text.rope.clone())
}

/// `Engine::get_head` of xi-rope, cloned: the text at the head.
#[verifier::external_body]
fn engine_head(engine: &Engine) -> (t: Text)
    ensures
        text_bytes(t) == engine_text(*engine),
{
    Text { rope: engine.get_head().clone() }
}

/// The text at the head of an engine's history once exactly the undo
/// groups `groups` are undone.
pub uninterp spec fn engine_undone_text(e: Engine, groups: Set<usize>) -> Seq<u8>;

/// `Engine::undo` of xi-rope: makes exactly the given undo groups undone.
/// The head text it leaves is named by what the engine held and the
/// groups; what that text is, is left unsaid.
#[verifier::external_body]
fn engine_undo(engine: &mut Engine, groups: BTreeSet<usize>)
    ensures
        engine_text(*final(engine)) == engine_undone_text(*old(engine), groups@),
        engine_undone_groups(*final(engine)) == groups@,
{
    engine.undo(groups)
}

/// `Engine::gc` of xi-rope: drops the history of the given undo groups.
/// The head text and the undone groups stay as they were.
#[verifier::external_body]
fn engine_gc(engine: &mut Engine, groups: &BTreeSet<usize>)
    ensures
        engine_text(*final(engine)) == engine_text(*old(engine)),
        engine_undone_groups(*final(engine)) == engine_undone_groups(*old(engine)),
{
    engine.gc(groups)
}

/// `Engine::get_head_rev_id` of xi-rope: the head revision.
#[verifier::external_body]
fn engine_head_rev_id(engine: &Engine) -> (r: RevId)
    ensures
        r == engine_head_rev(*engine),
{
    engine.get_head_rev_id()
}

/// `Engine::edit_rev` of xi-rope, based on the head revision (given by its
/// id, whose token the call takes): records the delta as a new revision in
/// `undo_group`. The undone groups stay as they were; when the group is
/// not undone the new head text is the delta applied to the old one (when
/// it is undone, the inserted text stays hidden; that case is left
/// unsaid). It panics unless the delta's base length is that of the head
/// text.
#[verifier::external_body]
fn engine_edit_rev(engine: &mut Engine, priority: usize, undo_group: usize, base_rev: &RevId, delta: TextDelta)
    requires
        *base_rev == engine_head_rev(*old(engine)),
        delta_base_len(delta) == engine_text(*old(engine)).len(),
    ensures
        engine_undone_groups(*final(engine)) == engine_undone_groups(*old(engine)),
        !engine_undone_groups(*old(engine)).contains(undo_group) ==> engine_text(*final(engine)) == delta_apply(
            delta,
            engine_text(*old(engine)),
        ),
{
    engine.edit_rev(priority, undo_group, base_rev.token(), delta.delta)
}

/// `Engine::is_equivalent_revision` of xi-rope: whether two revisions hold
/// the same text, a result named by the engine and the two revisions. Of
/// the head revision compared with itself it is true.
#[verifier::external_body]
fn engine_is_equivalent(engine: &Engine, base_rev: RevId, other_rev: RevId) -> (b: bool)
    ensures
        b == engine_equivalent(*engine, base_rev, other_rev),
        base_rev == other_rev && base_rev == engine_head_rev(*engine) ==> b,
{
    engine.is_equivalent_revision(base_rev, other_rev)
}

/// The undo bookkeeping of an editor.
pub ghost struct UndoModel {
    /// The next undo group to hand out.
    pub next_group: nat,
    /// Undo groups that may still be toggled, oldest first.
    pub live: Seq<usize>,
    /// The number of live groups that are done; the rest are undone.
    pub cur: nat,
    /// Undo groups that are undone.
    pub undone: Set<usize>,
    /// Undo groups that are no longer live and wait to be collected.
    pub garbage: Set<usize>,
    pub force_undo_group: bool,
    pub this_edit_type: EditType,
    pub last_edit_type: EditType,
    /// Edits sent to plugins and not yet acknowledged.
    pub revs_in_flight: nat,
}

/// The state an editor's undo bookkeeping keeps between operations: the
/// live groups are distinct and in the order they were handed out, at
/// most `MAX_UNDOS` of them; the done ones come first and are exactly
/// those not undone; every group handed out is below the next one; and
/// groups waiting to be collected are no longer live.
pub open spec fn undo_well_formed(m: UndoModel) -> bool {
    &&& 1 <= m.cur <= m.live.len() <= MAX_UNDOS
    &&& forall|i: int, j: int| 0 <= i < j < m.live.len() ==> m.live[i] < m.live[j]
    &&& forall|i: int| 0 <= i < m.live.len() ==> m.live[i] < m.next_group
    &&& forall|i: int| m.cur <= i < m.live.len() ==> m.undone.contains(#[trigger] m.live[i])
    &&& forall|i: int| 0 <= i < m.cur ==> !m.undone.contains(#[trigger] m.live[i])
    &&& forall|g: usize| m.undone.contains(g) ==> g < m.next_group
    &&& forall|g: usize| m.garbage.contains(g) ==> g < m.next_group && !m.live.contains(g)
}

/// The group of the most recent live edit.
pub open spec fn active_undo_group(m: UndoModel) -> usize {
    if m.live.len() > 0 { m.live.last() } else { 0 }
}

/// Whether the next edit joins the active undo group.
pub open spec fn joins_group(m: UndoModel) -> bool {
    m.live.len() > 0 && (m.force_undo_group || !m.this_edit_type.spec_breaks_undo_group(m.last_edit_type))
}

/// The bookkeeping after a new undo group is opened: the undone groups
/// stop being live, the new group is appended, and the oldest group
/// leaves once there are more than `MAX_UNDOS`.
pub open spec fn open_group(m: UndoModel) -> UndoModel {
    let kept = m.live.subrange(0, m.cur as int).push(m.next_group as usize);
    let dropped = m.live.subrange(m.cur as int, m.live.len() as int).to_set();
    if kept.len() <= MAX_UNDOS {
        UndoModel {
            next_group: m.next_group + 1,
            live: kept,
            cur: m.cur + 1,
            garbage: m.garbage.union(dropped),
            ..m
        }
    } else {
        UndoModel {
            next_group: m.next_group + 1,
            live: kept.subrange(1, kept.len() as int),
            cur: m.cur,
            garbage: m.garbage.union(dropped).insert(kept[0]),
            ..m
        }
    }
}

proof fn lemma_open_group_live(m: UndoModel, g: usize)
    requires
        open_group(m).live.contains(g),
        m.cur <= m.live.len(),
        m.next_group <= usize::MAX,
    ensures
        m.live.contains(g) || g == m.next_group,
{
    let kept = m.live.subrange(0, m.cur as int).push(m.next_group as usize);
    let k = choose|k: int| 0 <= k < open_group(m).live.len() && open_group(m).live[k] == g;
    let j = if kept.len() <= MAX_UNDOS { k } else { k + 1 };
    if kept.len() <= MAX_UNDOS {
        assert(open_group(m).live == kept);
    } else {
        assert(open_group(m).live == kept.subrange(1, kept.len() as int));
    }
    assert(kept[j] == g);
    if j < m.cur {
        assert(m.live[j] == g);
    }
}

/// The bookkeeping after one undo: the last done group becomes undone.
pub open spec fn undo_step(m: UndoModel) -> UndoModel {
    if m.cur > 1 {
        UndoModel {
            cur: (m.cur - 1) as nat,
            undone: m.undone.insert(m.live[m.cur - 1]),
            this_edit_type: EditType::Undo,
            ..m
        }
    } else {
        m
    }
}

/// The bookkeeping after one redo: the first undone group is done again.
pub open spec fn redo_step(m: UndoModel) -> UndoModel {
    if m.cur < m.live.len() {
        UndoModel {
            cur: m.cur + 1,
            undone: m.undone.remove(m.live[m.cur as int]),
            this_edit_type: EditType::Redo,
            ..m
        }
    } else {
        m
    }
}

/// The bookkeeping after collection is tried: when no edit is in flight,
/// the waiting groups are collected and stop being undone.
pub open spec fn collect_step(m: UndoModel) -> UndoModel {
    if m.revs_in_flight == 0 && !m.garbage.is_empty() {
        UndoModel { undone: m.undone.difference(m.garbage), garbage: Set::empty(), ..m }
    } else {
        m
    }
}

/// The text of a buffer, its edit history, and the undo bookkeeping.
pub struct Editor {
    /// The contents of the buffer.
    text: Text,
    /// The engine that records the edit history.
    engine: Engine,
    undo_group_id: usize,
    /// Undo groups that may still be toggled.
    live_undos: Vec<usize>,
    /// The index of the current undo; subsequent undos are currently undone
    /// (but may be redone).
    cur_undo: usize,
    /// Undo groups that are undone.
    undos: BTreeSet<usize>,
    /// Undo groups that are no longer live and should be collected.
    gc_undos: BTreeSet<usize>,
    force_undo_group: bool,
    this_edit_type: EditType,
    last_edit_type: EditType,
    revs_in_flight: usize,
    /// The revision last saved or loaded.
    pristine_rev_id: RevId,
}

impl View for Editor {
    type V = UndoModel;

    closed spec fn view(&self) -> UndoModel {
        UndoModel {
            next_group: self.undo_group_id as nat,
            live: self.live_undos@,
            cur: self.cur_undo as nat,
            undone: self.undos@,
            garbage: self.gc_undos@,
            force_undo_group: self.force_undo_group,
            this_edit_type: self.this_edit_type,
            last_edit_type: self.last_edit_type,
            revs_in_flight: self.revs_in_flight as nat,
        }
    }
}

impl Editor {
    /// The bytes of the buffer's text.
    pub closed spec fn text_view(&self) -> Seq<u8> {
        text_bytes(self.text)
    }

    /// The engine that records the edit history.
    pub closed spec fn engine_state(&self) -> Engine {
        self.engine
    }

    /// Whether the buffer and the engine agree: the text is the engine's
    /// head text, and of the live groups and of those still to be handed
    /// out, the engine holds undone exactly those the editor does.
    pub closed spec fn engine_in_step(&self) -> bool {
        &&& text_bytes(self.text) == engine_text(self.engine)
        &&& forall|g: usize|
            #![trigger engine_undone_groups(self.engine).contains(g)]
            (self.live_undos@.contains(g) || g >= self.undo_group_id) ==> (engine_undone_groups(
                self.engine,
            ).contains(g) <==> self.undos@.contains(g))
    }

    /// The revision last saved or loaded.
    pub closed spec fn pristine_rev(&self) -> RevId {
        self.pristine_rev_id
    }

    /// Whether the head revision is the one last saved or loaded.
    pub closed spec fn pristine(&self) -> bool {
        self.pristine_rev_id == engine_head_rev(self.engine)
    }

    /// An editor whose buffer holds `text`, with no undo history but the
    /// initial load in group 0.
    pub fn with_text(text: &str) -> (e: Editor)
        ensures
            undo_well_formed(e@),
            e@ == (UndoModel {
                next_group: 1,
                live: seq![0usize],
                cur: 1,
                undone: Set::empty(),
                garbage: Set::empty(),
                force_undo_group: false,
                this_edit_type: EditType::Other,
                last_edit_type: EditType::Other,
                revs_in_flight: 0,
            }),
            e.text_view() == text.spec_bytes(),
            e.engine_in_step(),
            e.pristine(),
    {
        let initial = Text::from_str(text);
        let engine = engine_new(&initial);
        let buffer = engine_head(&engine);
        let pristine_rev_id = engine_head_rev_id(&engine);
        let live_undos: Vec<usize> = vec![0];
        assert(live_undos@ =~= seq![0usize]);
        let undos: BTreeSet<usize> = BTreeSet::new();
        let gc_undos: BTreeSet<usize> = BTreeSet::new();
        Editor {
            text: buffer,
            engine,
            undo_group_id: 1,
            live_undos,
            cur_undo: 1,
            undos,
            gc_undos,
            force_undo_group: false,
            this_edit_type: EditType::Other,
            last_edit_type: EditType::Other,
            revs_in_flight: 0,
            pristine_rev_id,
        }
    }

    /// An editor with an empty buffer.
    pub fn new() -> (e: Editor)
        ensures
            undo_well_formed(e@),
            e@ == (UndoModel {
                next_group: 1,
                live: seq![0usize],
                cur: 1,
                undone: Set::empty(),
                garbage: Set::empty(),
                force_undo_group: false,
                this_edit_type: EditType::Other,
                last_edit_type: EditType::Other,
                revs_in_flight: 0,
            }),
            e.text_view().len() == 0,
            e.engine_in_step(),
            e.pristine(),
    {
        proof {
            reveal_strlit("");
        }
        Editor::with_text("")
    }

    /// The text of the buffer.
    pub fn get_buffer(&self) -> (t: &Text)
        ensures
            text_bytes(*t) == self.text_view(),
    {
        &self.text
    }

    /// The text to write to a file: the buffer, with a newline added at the
    /// end when it is not empty and does not end with one.
    pub fn text_for_save(&self) -> (t: Text)
        ensures
            text_bytes(t) == (if self.text_view().len() >= 1 && self.text_view().last() != 10u8 {
                self.text_view().push(10u8)
            } else {
                self.text_view()
            }),
    {
        let mut rope = self.text.clone();
        let rope_len = rope.len();
        if rope_len < 1 {
            return rope;
        }
        let has_newline_at_eof = rope.byte_at(rope_len - 1) == 10u8;
        if !has_newline_at_eof {
            proof {
                reveal_strlit("\n");
                assert(text_bytes(rope).take(rope_len as int) =~= text_bytes(rope));
            }
            rope.replace_tail(rope_len, "\n");
            proof {
                assert("\n"@ =~= seq!['\n']);
                assert(vstd::utf8::is_ascii_chars("\n"@));
                vstd::utf8::is_ascii_chars_encode_utf8("\n"@);
                assert("\n".spec_bytes() =~= seq![10u8]);
            }
            rope
        } else {
            rope
        }
    }

    /// The number of lines a plugin sees: one more than the newlines.
    pub fn plugin_n_lines(&self) -> (n: usize)
        requires
            newline_count(self.text_view()) < usize::MAX,
        ensures
            n == newline_count(self.text_view()) + 1,
    {
        self.text.measure_lines() + 1
    }

    /// The live undo groups, oldest first.
    pub fn live_undos(&self) -> (v: Vec<usize>)
        ensures
            v@ == self@.live,
    {
        self.live_undos.clone()
    }

    /// The number of live groups that are done.
    pub fn cur_undo(&self) -> (c: usize)
        ensures
            c == self@.cur,
    {
        self.cur_undo
    }

    /// Whether an undo group is undone.
    pub fn is_undone(&self, group: usize) -> (b: bool)
        ensures
            b == self@.undone.contains(group),
    {
        self.undos.contains(&group)
    }

    /// Whether an undo group waits to be collected.
    pub fn is_garbage(&self, group: usize) -> (b: bool)
        ensures
            b == self@.garbage.contains(group),
    {
        self.gc_undos.contains(&group)
    }

    /// The kind of the edit in progress.
    pub fn get_edit_type(&self) -> (t: EditType)
        ensures
            t == self@.this_edit_type,
    {
        self.this_edit_type
    }

    /// The group of the most recent live edit.
    pub fn get_active_undo_group(&self) -> (g: usize)
        ensures
            g == active_undo_group(self@),
    {
        if self.live_undos.len() > 0 {
            self.live_undos[self.live_undos.len() - 1]
        } else {
            0
        }
    }

    /// Records the kind of the edit just made and resets the current one.
    pub fn update_edit_type(&mut self)
        ensures
            final(self)@ == (UndoModel {
                last_edit_type: old(self)@.this_edit_type,
                this_edit_type: EditType::Other,
                ..old(self)@
            }),
            final(self).text_view() == old(self).text_view(),
            final(self).engine_in_step() == old(self).engine_in_step(),
            final(self).pristine() == old(self).pristine(),
    {
        self.last_edit_type = self.this_edit_type;
        self.this_edit_type = EditType::Other;
    }

    /// Sets the kind of the edit in progress.
    pub fn set_edit_type(&mut self, edit_type: EditType)
        ensures
            final(self)@ == (UndoModel { this_edit_type: edit_type, ..old(self)@ }),
            final(self).text_view() == old(self).text_view(),
            final(self).engine_in_step() == old(self).engine_in_step(),
            final(self).pristine() == old(self).pristine(),
    {
        self.this_edit_type = edit_type;
    }

    /// Sets whether edits are forced into the same undo group rather than
    /// being split by their kind.
    pub fn set_force_undo_group(&mut self, force_undo_group: bool)
        ensures
            final(self)@ == (UndoModel { force_undo_group, ..old(self)@ }),
            final(self).text_view() == old(self).text_view(),
            final(self).engine_in_step() == old(self).engine_in_step(),
            final(self).pristine() == old(self).pristine(),
    {
        self.force_undo_group = force_undo_group;
    }

    /// The undo group of the next edit: the active group when the edit
    /// joins it, else a new group, opened as `open_group` says.
    pub fn calculate_undo_group(&mut self) -> (g: usize)
        requires
            undo_well_formed(old(self)@),
            old(self).engine_in_step(),
            old(self)@.next_group < usize::MAX,
        ensures
            undo_well_formed(final(self)@),
            final(self).engine_in_step(),
            final(self).engine_state() == old(self).engine_state(),
            final(self).pristine() == old(self).pristine(),
            g == active_undo_group(final(self)@),
            final(self).text_view() == old(self).text_view(),
            joins_group(old(self)@) ==> g == active_undo_group(old(self)@) && final(self)@ == old(self)@,
            !joins_group(old(self)@) ==> g == old(self)@.next_group && final(self)@ == open_group(old(self)@),
    {
        let has_undos = self.live_undos.len() > 0;
        let force_undo_group = self.force_undo_group;
        let is_unbroken_group = !self.this_edit_type.breaks_undo_group(self.last_edit_type);
        if has_undos && (force_undo_group || is_unbroken_group) {
            self.live_undos[self.live_undos.len() - 1]
        } else {
            let ghost m = self@;
            let undo_group = self.undo_group_id;
            let mut i: usize = self.cur_undo;
            while i < self.live_undos.len()
                invariant
                    m == old(self)@,
                    undo_well_formed(m),
                    self.live_undos@ == m.live,
                    self.cur_undo == m.cur,
                    self.undo_group_id == m.next_group,
                    self.undos@ == m.undone,
                    self.engine == old(self).engine,
                    self.text == old(self).text,
                    self.pristine_rev_id == old(self).pristine_rev_id,
                    self.force_undo_group == m.force_undo_group,
                    self.this_edit_type == m.this_edit_type,
                    self.last_edit_type == m.last_edit_type,
                    self.revs_in_flight == m.revs_in_flight,
                    self.text == old(self).text,
                    m.cur <= i <= m.live.len(),
                    self.gc_undos@ == m.garbage.union(m.live.subrange(m.cur as int, i as int).to_set()),
                decreases self.live_undos.len() - i,
            {
                let x = self.live_undos[i];
                self.gc_undos.insert(x);
                proof {
                    assert(m.live.subrange(m.cur as int, i + 1).to_set() =~= m.live.subrange(
                        m.cur as int,
                        i as int,
                    ).to_set().insert(x)) by {
                        assert(m.live.subrange(m.cur as int, i + 1) =~= m.live.subrange(
                            m.cur as int,
                            i as int,
                        ).push(x));
                        m.live.subrange(m.cur as int, i as int).lemma_push_to_set_commute(x);
                    }
                }
                i += 1;
            }
            self.live_undos.truncate(self.cur_undo);
            self.live_undos.push(undo_group);
            let ghost kept = m.live.subrange(0, m.cur as int).push(m.next_group as usize);
            assert(self.live_undos@ =~= kept);
            if self.live_undos.len() <= MAX_UNDOS {
                self.cur_undo += 1;
            } else {
                let first = self.live_undos.remove(0);
                self.gc_undos.insert(first);
                assert(self.live_undos@ =~= kept.subrange(1, kept.len() as int));
            }
            self.undo_group_id += 1;
            proof {
                let n = self@;
                assert forall|g: usize| n.garbage.contains(g) implies g < n.next_group && !n.live.contains(g) by {
                    if m.garbage.contains(g) {
                        assert(!m.live.contains(g));
                        if n.live.contains(g) {
                            let k = choose|k: int| 0 <= k < n.live.len() && n.live[k] == g;
                            assert(kept.contains(g));
                            let k2 = choose|k2: int| 0 <= k2 < kept.len() && kept[k2] == g;
                            if k2 < m.cur {
                                assert(m.live[k2] == g);
                            }
                        }
                    } else if m.live.subrange(m.cur as int, m.live.len() as int).to_set().contains(g) {
                        let j = choose|j: int| 0 <= j < m.live.len() - m.cur && m.live.subrange(m.cur as int, m.live.len() as int)[j] == g;
                        assert(m.live[m.cur + j] == g);
                        if n.live.contains(g) {
                            let k2 = choose|k2: int| 0 <= k2 < n.live.len() && n.live[k2] == g;
                            assert(kept.contains(g));
                            let k3 = choose|k3: int| 0 <= k3 < kept.len() && kept[k3] == g;
                            if k3 < m.cur {
                                assert(m.live[k3] == g);
                            }
                        }
                    } else {
                        assert(g == kept[0]);
                        if n.live.contains(g) {
                            let k2 = choose|k2: int| 0 <= k2 < n.live.len() && n.live[k2] == g;
                            assert(n.live[k2] == kept[k2 + 1]);
                        }
                    }
                }
                assert(n == open_group(m));
            }
            proof {
                assert forall|g: usize|
                    (self.live_undos@.contains(g) || g >= self.undo_group_id) implies (engine_undone_groups(
                    self.engine,
                ).contains(g) <==> self.undos@.contains(g)) by {
                    if self.live_undos@.contains(g) {
                        lemma_open_group_live(m, g);
                    }
                    assert(old(self).live_undos@.contains(g) || g >= old(self).undo_group_id);
                }
            }
            undo_group
        }
    }

    /// Marks the head revision as the one saved or loaded.
    pub fn set_pristine(&mut self)
        ensures
            final(self).pristine(),
            final(self)@ == old(self)@,
            final(self).text_view() == old(self).text_view(),
            final(self).engine_in_step() == old(self).engine_in_step(),
            final(self).engine_state() == old(self).engine_state(),
    {
        self.pristine_rev_id = engine_head_rev_id(&self.engine);
    }

    /// Whether the head revision holds the text last saved or loaded: true
    /// at least while the head is that very revision.
    pub fn is_pristine(&self) -> (b: bool)
        ensures
            b == engine_equivalent(self.engine_state(), self.pristine_rev(), engine_head_rev(self.engine_state())),
            self.pristine() ==> b,
    {
        let head = engine_head_rev_id(&self.engine);
        engine_is_equivalent(&self.engine, self.pristine_rev_id, head)
    }

    /// Applies a delta to the text as an edit of the undo group the edit
    /// belongs to (see `calculate_undo_group`), and records the kind of the
    /// edit. The text becomes the delta applied to it, unless that group is
    /// undone.
    fn add_delta(&mut self, delta: TextDelta)
        requires
            undo_well_formed(old(self)@),
            old(self).engine_in_step(),
            old(self)@.next_group < usize::MAX,
            delta_base_len(delta) == old(self).text_view().len(),
        ensures
            undo_well_formed(final(self)@),
            final(self).engine_in_step(),
            final(self)@ == (UndoModel {
                last_edit_type: old(self)@.this_edit_type,
                ..(if joins_group(old(self)@) { old(self)@ } else { open_group(old(self)@) })
            }),
            !final(self)@.undone.contains(active_undo_group(final(self)@)) ==> final(self).text_view()
                == delta_apply(delta, old(self).text_view()),
    {
        let head_rev_id = engine_head_rev_id(&self.engine);
        let undo_group = self.calculate_undo_group();
        self.last_edit_type = self.this_edit_type;
        let priority: usize = 0x10000;
        proof {
            let g = undo_group;
            assert(self.live_undos@.contains(g)) by {
                assert(self.live_undos@[self.live_undos@.len() - 1] == g);
            }
        }
        engine_edit_rev(&mut self.engine, priority, undo_group, &head_rev_id, delta);
        self.text = engine_head(&self.engine);
    }

    /// Sets the buffer's contents to `text` as one edit, keeping the undo
    /// history, and marks the result as saved. The buffer then holds `text`
    /// unless the edit went into an undo group that is undone.
    pub fn reload(&mut self, text: &Text)
        requires
            undo_well_formed(old(self)@),
            old(self).engine_in_step(),
            old(self)@.next_group < usize::MAX,
        ensures
            undo_well_formed(final(self)@),
            final(self).engine_in_step(),
            final(self).pristine(),
            final(self)@ == (UndoModel {
                last_edit_type: old(self)@.this_edit_type,
                ..(if joins_group(old(self)@) { old(self)@ } else { open_group(old(self)@) })
            }),
            !final(self)@.undone.contains(active_undo_group(final(self)@)) ==> final(self).text_view()
                == text_bytes(*text),
    {
        let delta = line_hash_diff(&self.text, text);
        self.add_delta(delta);
        self.set_pristine();
    }

    /// Hands the undone groups to the engine and takes up its head text.
    fn update_undos(&mut self)
        ensures
            final(self)@ == old(self)@,
            engine_text(final(self).engine) == engine_undone_text(old(self).engine, old(self).undos@),
            final(self).text_view() == engine_text(final(self).engine),
            final(self).engine_in_step(),
    {
        let groups = self.undos.clone();
        engine_undo(&mut self.engine, groups);
        self.text = engine_head(&self.engine);
    }

    /// Undoes the last done group, if there is one besides the initial
    /// load.
    pub fn do_undo(&mut self)
        requires
            undo_well_formed(old(self)@),
            old(self).engine_in_step(),
        ensures
            undo_well_formed(final(self)@),
            final(self).engine_in_step(),
            final(self)@ == undo_step(old(self)@),
            final(self).text_view() == (if old(self)@.cur > 1 {
                engine_undone_text(old(self).engine_state(), final(self)@.undone)
            } else {
                old(self).text_view()
            }),
    {
        if self.cur_undo > 1 {
            self.cur_undo -= 1;
            let newly_undone = self.undos.insert(self.live_undos[self.cur_undo]);
            assert(newly_undone);
            self.this_edit_type = EditType::Undo;
            self.update_undos();
        }
    }

    /// Redoes the first undone group, if there is one.
    pub fn do_redo(&mut self)
        requires
            undo_well_formed(old(self)@),
            old(self).engine_in_step(),
        ensures
            undo_well_formed(final(self)@),
            final(self).engine_in_step(),
            final(self)@ == redo_step(old(self)@),
            final(self).text_view() == (if old(self)@.cur < old(self)@.live.len() {
                engine_undone_text(old(self).engine_state(), final(self)@.undone)
            } else {
                old(self).text_view()
            }),
    {
        if self.cur_undo < self.live_undos.len() {
            let was_undone = self.undos.remove(&self.live_undos[self.cur_undo]);
            assert(was_undone);
            self.cur_undo += 1;
            self.this_edit_type = EditType::Redo;
            self.update_undos();
            proof {
                let m = old(self)@;
                let n = self@;
                assert forall|i: int| n.cur <= i < n.live.len() implies n.undone.contains(#[trigger] n.live[i]) by {
                    assert(m.live[m.cur as int] < m.live[i]);
                }
            }
        }
    }

    /// Collects the groups that are no longer live, once no edit is in
    /// flight: the engine drops their history and they stop being undone.
    fn gc_undos(&mut self)
        requires
            undo_well_formed(old(self)@),
            old(self).engine_in_step(),
        ensures
            undo_well_formed(final(self)@),
            final(self).engine_in_step(),
            final(self)@ == collect_step(old(self)@),
            final(self).text_view() == old(self).text_view(),
    {
        if self.revs_in_flight == 0 && !self.gc_undos.is_empty() {
            engine_gc(&mut self.engine, &self.gc_undos);
            let ghost e1 = self.engine;
            let ghost undone = self.undos@;
            let ghost garbage = self.gc_undos@;
            let ghost m = self@;
            let ghost mut seen: Seq<usize> = Seq::empty();
            for g in it: self.gc_undos.iter()
                invariant
                    garbage == self.gc_undos@,
                    !garbage.is_empty(),
                    it.seq().unref().to_set() == garbage,
                    seen == it.seq().unref().take(it.index()),
                    it.index() == it.seq().len() ==> seen == it.seq().unref(),
                    m == old(self)@,
                    undone == m.undone,
                    garbage == m.garbage,
                    self.live_undos@ == m.live,
                    self.cur_undo == m.cur,
                    self.undo_group_id == m.next_group,
                    self.force_undo_group == m.force_undo_group,
                    self.this_edit_type == m.this_edit_type,
                    self.last_edit_type == m.last_edit_type,
                    self.revs_in_flight == m.revs_in_flight,
                    self.text == old(self).text,
                    self.engine == e1,
                    forall|x: usize|
                        self.undos@.contains(x) <==> (undone.contains(x) && !seen.contains(x)),
            {
                let ghost before = it.seq().unref().take(it.index());
                let ghost after = it.seq().unref().take(it.index() + 1);
                proof {
                    assert(after =~= before.push(*g));
                    seen = seen.push(*g);
                    assert(it.index() + 1 == it.seq().len() ==> after =~= it.seq().unref());
                }
                self.undos.remove(g);
                proof {
                    assert forall|x: usize|
                        self.undos@.contains(x) <==> (undone.contains(x) && !after.contains(x)) by {
                        if x == *g {
                            assert(after.last() == x);
                        } else {
                            if after.contains(x) {
                                let j = choose|j: int| 0 <= j < after.len() && #[trigger] after[j] == x;
                                assert(before[j] == x);
                            }
                            if before.contains(x) {
                                let j = choose|j: int| 0 <= j < before.len() && #[trigger] before[j] == x;
                                assert(after[j] == x);
                            }
                        }
                    }
                }
            }
            proof {
                assert(seen.to_set() == garbage);
                assert forall|x: usize| self.undos@.contains(x) <==> undone.difference(garbage).contains(x) by {
                    assert(seen.to_set().contains(x) <==> seen.contains(x));
                }
                assert(self.undos@ =~= undone.difference(garbage));
                assert forall|g: usize|
                    (self.live_undos@.contains(g) || g >= self.undo_group_id) implies (engine_undone_groups(
                    self.engine,
                ).contains(g) <==> self.undos@.contains(g)) by {
                    assert(old(self).live_undos@.contains(g) || g >= old(self).undo_group_id);
                    assert(!garbage.contains(g));
                }
            }
            self.gc_undos.clear();
        }
    }

    /// Records an edit sent to plugins.
    pub fn increment_revs_in_flight(&mut self)
        requires
            old(self)@.revs_in_flight < usize::MAX,
        ensures
            final(self)@ == (UndoModel { revs_in_flight: old(self)@.revs_in_flight + 1, ..old(self)@ }),
            final(self).text_view() == old(self).text_view(),
            final(self).engine_in_step() == old(self).engine_in_step(),
            final(self).pristine() == old(self).pristine(),
    {
        self.revs_in_flight += 1;
    }

    /// Records that a plugin acknowledged an edit, and collects the groups
    /// waiting for it.
    pub fn dec_revs_in_flight(&mut self)
        requires
            undo_well_formed(old(self)@),
            old(self).engine_in_step(),
            old(self)@.revs_in_flight > 0,
        ensures
            undo_well_formed(final(self)@),
            final(self).engine_in_step(),
            final(self)@ == collect_step(
                UndoModel { revs_in_flight: (old(self)@.revs_in_flight - 1) as nat, ..old(self)@ },
            ),
            final(self).text_view() == old(self).text_view(),
    {
        self.revs_in_flight -= 1;
        self.gc_undos();
    }
}

/// Undoing and then redoing gives back the same live groups, the same
/// position and the same undone groups.
pub proof fn law_undo_then_redo(m: UndoModel)
    requires
        undo_well_formed(m),
        m.cur > 1,
    ensures
        redo_step(undo_step(m)).live == m.live,
        redo_step(undo_step(m)).cur == m.cur,
        redo_step(undo_step(m)).undone == m.undone,
{
    let u = undo_step(m);
    assert(!m.undone.contains(m.live[m.cur - 1]));
    assert(u.undone.remove(m.live[m.cur - 1]) =~= m.undone);
}

/// Redoing and then undoing gives back the same live groups, the same
/// position and the same undone groups.
pub proof fn law_redo_then_undo(m: UndoModel)
    requires
        undo_well_formed(m),
        m.cur < m.live.len(),
    ensures
        undo_step(redo_step(m)).live == m.live,
        undo_step(redo_step(m)).cur == m.cur,
        undo_step(redo_step(m)).undone == m.undone,
{
    let r = redo_step(m);
    assert(m.undone.contains(m.live[m.cur as int]));
    assert(r.undone.insert(m.live[m.cur as int]) =~= m.undone);
}

/// An edit that opens a new undo group leaves nothing to redo: the groups
/// that were undone stop being live.
pub proof fn law_new_group_clears_redo(m: UndoModel)
    requires
        undo_well_formed(m),
        !joins_group(m),
        m.next_group < usize::MAX,
    ensures
        open_group(m).cur == open_group(m).live.len(),
        open_group(m).live.last() == m.next_group,
        forall|i: int| m.cur <= i < m.live.len() ==> !open_group(m).live.contains(#[trigger] m.live[i]),
{
    let n = open_group(m);
    let kept = m.live.subrange(0, m.cur as int).push(m.next_group as usize);
    assert(kept.last() == m.next_group);
    assert forall|i: int| m.cur <= i < m.live.len() implies !n.live.contains(#[trigger] m.live[i]) by {
        if n.live.contains(m.live[i]) {
            let k = choose|k: int| 0 <= k < n.live.len() && n.live[k] == m.live[i];
            if kept.len() <= MAX_UNDOS {
                if k < m.cur {
                    assert(m.live[k] < m.live[i]);
                }
            } else {
                assert(n.live[k] == kept[k + 1]);
                if k + 1 < m.cur {
                    assert(m.live[k + 1] < m.live[i]);
                }
            }
        }
    }
}

/// The number of newline bytes in `bytes`.
pub open spec fn newline_count(bytes: Seq<u8>) -> nat
    decreases bytes.len(),
{
    if bytes.len() == 0 {
        0
    } else {
        newline_count(bytes.drop_last()) + if bytes.last() == 10u8 { 1nat } else { 0nat }
    }
}

/// `count_newlines` of xi-rope: the number of newline bytes in the string.
#[verifier::external_body]
fn count_newlines(s: &str) -> (n: usize)
    ensures
        n == newline_count(s.spec_bytes()),
{
    xi_rope::rope::count_newlines(s)
}

/// The number of lines of a string, not counting a trailing newline as
/// starting one.
pub open spec fn line_count(bytes: Seq<u8>) -> nat {
    if bytes.len() > 0 && bytes.last() == 10u8 {
        newline_count(bytes)
    } else {
        newline_count(bytes) + 1
    }
}

/// Counts the number of lines in the string, not including any trailing
/// newline.
pub fn count_lines(s: &str) -> (n: usize)
    requires
        s.spec_bytes().len() < usize::MAX,
    ensures
        n == line_count(s.spec_bytes()),
{
    proof {
        lemma_newline_count_bound(s.spec_bytes());
    }
    let mut newlines = count_newlines(s);
    let bytes = s.as_bytes();
    if bytes.len() > 0 && bytes[bytes.len() - 1] == 10u8 {
        newlines -= 1;
    }
    1 + newlines
}

proof fn lemma_newline_count_bound(bytes: Seq<u8>)
    ensures
        newline_count(bytes) <= bytes.len(),
    decreases bytes.len(),
{
    if bytes.len() > 0 {
        lemma_newline_count_bound(bytes.drop_last());
    }
}

/// The brackets and quotes an insert of the opening one surrounds a
/// selection with.
pub open spec fn spec_surrounding_pair(chars: Seq<char>) -> Option<(Seq<char>, Seq<char>)> {
    if chars == "\""@ {
        Some(("\""@, "\""@))
    } else if chars == "'"@ {
        Some(("'"@, "'"@))
    } else if chars == "{"@ {
        Some(("{"@, "}"@))
    } else if chars == "["@ {
        Some(("["@, "]"@))
    } else if chars == "("@ {
        Some(("("@, ")"@))
    } else if chars == "<"@ {
        Some(("<"@, ">"@))
    } else {
        None
    }
}

/// The pair of text an insert of `chars` surrounds selections with, when
/// `chars` opens one.
pub fn surrounding_pair(chars: &str) -> (p: Option<(&'static str, &'static str)>)
    ensures
        match p {
            Some((a, b)) => spec_surrounding_pair(chars@) == Some((a@, b@)),
            None => spec_surrounding_pair(chars@) is None,
        },
{
    if str_eq(chars, "\"") {
        Some(("\"", "\""))
    } else if str_eq(chars, "'") {
        Some(("'", "'"))
    } else if str_eq(chars, "{") {
        Some(("{", "}"))
    } else if str_eq(chars, "[") {
        Some(("[", "]"))
    } else if str_eq(chars, "(") {
        Some(("(", ")"))
    } else if str_eq(chars, "<") {
        Some(("<", ">"))
    } else {
        None
    }
}

/// The kind of an insert of `chars` into the selection `regions`: it
/// surrounds the selections when `chars` opens a pair and no region is a
/// caret, and inserts the characters otherwise.
pub fn insert_edit_type(chars: &str, regions: &[SelRegion]) -> (r: (EditType, Option<(&'static str, &'static str)>))
    ensures
        (spec_surrounding_pair(chars@) is Some && forall|i: int|
            0 <= i < regions@.len() ==> !(#[trigger] regions@[i]).is_caret_spec()) ==> r.0 == EditType::Surround
            && r.1 is Some && spec_surrounding_pair(chars@) == Some((r.1.unwrap().0@, r.1.unwrap().1@)),
        !(spec_surrounding_pair(chars@) is Some && forall|i: int|
            0 <= i < regions@.len() ==> !(#[trigger] regions@[i]).is_caret_spec()) ==> r.0 == EditType::InsertChars
            && r.1 is None,
{
    let pair_search = surrounding_pair(chars);
    let mut caret_exists = false;
    let mut i: usize = 0;
    while i < regions.len()
        invariant
            i <= regions@.len(),
            caret_exists == exists|j: int| 0 <= j < i && (#[trigger] regions@[j]).is_caret_spec(),
        decreases regions.len() - i,
    {
        if regions[i].is_caret() {
            caret_exists = true;
        }
        i += 1;
    }
    match pair_search {
        Some(pair) => {
            if !caret_exists {
                (EditType::Surround, Some(pair))
            } else {
                (EditType::InsertChars, None)
            }
        },
        None => (EditType::InsertChars, None),
    }
}

/// Whether a paste into `n_regions` regions puts one line of `chars` into
/// each region: when there is more than one region and as many lines.
pub fn paste_line_per_region(n_regions: usize, chars: &str) -> (b: bool)
    requires
        chars.spec_bytes().len() < usize::MAX,
    ensures
        b == !(n_regions == 1 || n_regions != line_count(chars.spec_bytes())),
{
    !(n_regions == 1 || n_regions != count_lines(chars))
}

/// How selections move over the text an edit of this kind inserts:
/// transposes rotate characters inside a selection, surrounds add them
/// outside it.
pub fn commit_drift(edit_type: EditType) -> (d: InsertDrift)
    ensures
        d == (match edit_type {
            EditType::Transpose => InsertDrift::Inside,
            EditType::Surround => InsertDrift::Outside,
            _ => InsertDrift::Default,
        }),
{
    match edit_type {
        EditType::Transpose => InsertDrift::Inside,
        EditType::Surround => InsertDrift::Outside,
        _ => InsertDrift::Default,
    }
}

} // verus!
