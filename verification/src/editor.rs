//! The board being edited: what is selected, what an edit leads to, and where boards live.
//!
//! The document and its projection onto the screen are held elsewhere. What is kept here is
//! what the editing rules read of the projection, one [`Shown`] per item, and the selection
//! over it. Every edit goes through one door: whatever happens to it, the undo group is
//! closed and the projection follows the document.

use vstd::prelude::*;

use crate::item::ItemId;
use crate::library::{a_board_file_is_named_by_its_stem, file_stem, stem};
use crate::path::{inside, join, the_root_has_no_components};
use crate::text::same;

verus! {

/// An item on the screen.
pub type SceneId = u64;

/// What the projection shows of an item.
#[derive(Clone, Copy, Debug, PartialEq, Eq, Structural)]
pub struct Shown {
    pub scene: SceneId,
    pub doc: ItemId,
    pub locked: bool,
}

/// What an import should leave selected.
#[derive(Clone, Copy, Debug, PartialEq, Eq, Structural)]
pub enum AfterImport {
    /// What arrived: right for a paste.
    SelectPasted,
    /// Nothing: right for opening a board.
    SelectNothing,
}

/// The selection over the items that are shown.
#[derive(Clone, Debug)]
pub struct Editor {
    pub shown: Vec<Shown>,
    pub selection: Vec<SceneId>,
}

/// What is to be done after an edit was tried.
#[derive(Clone, Copy, Debug, PartialEq, Eq, Structural)]
pub struct AfterEdit {
    pub close_undo_group: bool,
    pub reproject: bool,
    pub record: bool,
}

/// What refreshing the one edited item came to.
#[derive(Clone, Copy, Debug, PartialEq, Eq, Structural)]
pub enum Refreshed {
    /// The item's bounds are where they were.
    InPlace,
    /// Its bounds moved, or depend on other items.
    Moved,
    Failed,
}

// ----- what the selection names --------------------------------------------------------

/// The item shown under a scene id, if there is one.
pub open spec fn shown_as(shown: Seq<Shown>, id: SceneId) -> Option<Shown>
    decreases shown.len(),
{
    if shown.len() == 0 {
        None
    } else if shown[0].scene == id {
        Some(shown[0])
    } else {
        shown_as(shown.skip(1), id)
    }
}

/// The scene id a document item is shown under, if it is.
pub open spec fn scene_of(shown: Seq<Shown>, doc: ItemId) -> Option<SceneId>
    decreases shown.len(),
{
    if shown.len() == 0 {
        None
    } else if shown[0].doc == doc {
        Some(shown[0].scene)
    } else {
        scene_of(shown.skip(1), doc)
    }
}

/// Which of the selected items a list takes.
#[derive(Clone, Copy, Debug, PartialEq, Eq, Structural)]
pub enum Take {
    All,
    Unlocked,
    Locked,
}

pub open spec fn takes(take: Take, item: Shown) -> bool {
    match take {
        Take::All => true,
        Take::Unlocked => !item.locked,
        Take::Locked => item.locked,
    }
}

/// The document ids of the selected items that are shown and taken, in selection order.
pub open spec fn named(shown: Seq<Shown>, selection: Seq<SceneId>, take: Take) -> Seq<ItemId>
    decreases selection.len(),
{
    if selection.len() == 0 {
        Seq::empty()
    } else {
        let before = named(shown, selection.drop_last(), take);
        match shown_as(shown, selection.last()) {
            Some(item) => if takes(take, item) {
                before.push(item.doc)
            } else {
                before
            },
            None => before,
        }
    }
}

/// The scene ids of those of `ids` that are shown, in order.
pub open spec fn scenes(shown: Seq<Shown>, ids: Seq<ItemId>) -> Seq<SceneId>
    decreases ids.len(),
{
    if ids.len() == 0 {
        Seq::empty()
    } else {
        let before = scenes(shown, ids.drop_last());
        match scene_of(shown, ids.last()) {
            Some(id) => before.push(id),
            None => before,
        }
    }
}

/// Those of a selection that are still shown, in order.
pub open spec fn still_shown(shown: Seq<Shown>, selection: Seq<SceneId>) -> Seq<SceneId>
    decreases selection.len(),
{
    if selection.len() == 0 {
        selection
    } else if shown_as(shown, selection.last()) is Some {
        still_shown(shown, selection.drop_last()).push(selection.last())
    } else {
        still_shown(shown, selection.drop_last())
    }
}

/// A selection after a click on an item, or on nothing. An additive click toggles the item
/// and leaves the rest; a plain one selects it alone.
pub open spec fn picked(
    selection: Seq<SceneId>,
    hit: Option<SceneId>,
    additive: bool,
) -> Seq<SceneId> {
    match hit {
        Some(id) => if !additive {
            seq![id]
        } else if selection.contains(id) {
            selection.remove(selection.index_of_first(id)->0)
        } else {
            selection.push(id)
        },
        None => if additive {
            selection
        } else {
            Seq::empty()
        },
    }
}

/// A selection with everything a rectangle caught added, each item once.
pub open spec fn swept(selection: Seq<SceneId>, hits: Seq<SceneId>) -> Seq<SceneId>
    decreases hits.len(),
{
    if hits.len() == 0 {
        selection
    } else {
        let before = swept(selection, hits.drop_last());
        if before.contains(hits.last()) {
            before
        } else {
            before.push(hits.last())
        }
    }
}

/// Ids in ascending order, with one put in.
pub open spec fn ranked(list: Seq<SceneId>, one: SceneId) -> Seq<SceneId>
    decreases list.len(),
{
    if list.len() > 0 && one < list.last() {
        ranked(list.drop_last(), one).push(list.last())
    } else {
        list.push(one)
    }
}

/// The scene ids of everything shown, in ascending order.
pub open spec fn all_ranked(shown: Seq<Shown>) -> Seq<SceneId>
    decreases shown.len(),
{
    if shown.len() == 0 {
        Seq::empty()
    } else {
        ranked(all_ranked(shown.drop_last()), shown.last().scene)
    }
}

fn has_scene(list: &Vec<SceneId>, id: SceneId) -> (answer: bool)
    ensures
        answer == list@.contains(id),
{
    let mut at: usize = 0;
    while at < list.len()
        invariant
            at <= list@.len(),
            forall|k: int| 0 <= k < at ==> list@[k] != id,
        decreases list@.len() - at,
    {
        if list[at] == id {
            proof {
                assert(list@[at as int] == id);
            }
            return true;
        }
        at = at + 1;
    }
    false
}

impl Editor {
    /// A board with nothing selected.
    pub fn new(shown: Vec<Shown>) -> (editor: Editor)
        ensures
            editor.shown == shown,
            editor.selection@.len() == 0,
    {
        Editor { shown, selection: Vec::new() }
    }

    pub fn selection(&self) -> (selection: &Vec<SceneId>)
        ensures
            *selection == self.selection,
    {
        &self.selection
    }

    fn get(&self, id: SceneId) -> (item: Option<Shown>)
        ensures
            item == shown_as(self.shown@, id),
    {
        let mut at: usize = 0;
        proof {
            assert(self.shown@.skip(0) =~= self.shown@);
        }
        while at < self.shown.len()
            invariant
                at <= self.shown@.len(),
                shown_as(self.shown@, id) == shown_as(self.shown@.skip(at as int), id),
            decreases self.shown@.len() - at,
        {
            proof {
                assert(self.shown@.skip(at as int)[0] == self.shown@[at as int]);
                assert(self.shown@.skip(at as int).skip(1) =~= self.shown@.skip(at as int + 1));
            }
            if self.shown[at].scene == id {
                return Some(self.shown[at]);
            }
            at = at + 1;
        }
        None
    }

    fn scene_id(&self, doc: ItemId) -> (id: Option<SceneId>)
        ensures
            id == scene_of(self.shown@, doc),
    {
        let mut at: usize = 0;
        proof {
            assert(self.shown@.skip(0) =~= self.shown@);
        }
        while at < self.shown.len()
            invariant
                at <= self.shown@.len(),
                scene_of(self.shown@, doc) == scene_of(self.shown@.skip(at as int), doc),
            decreases self.shown@.len() - at,
        {
            proof {
                assert(self.shown@.skip(at as int)[0] == self.shown@[at as int]);
                assert(self.shown@.skip(at as int).skip(1) =~= self.shown@.skip(at as int + 1));
            }
            if self.shown[at].doc == doc {
                return Some(self.shown[at].scene);
            }
            at = at + 1;
        }
        None
    }

    fn take_selected(&self, take: Take) -> (ids: Vec<ItemId>)
        ensures
            ids@ == named(self.shown@, self.selection@, take),
    {
        let mut ids: Vec<ItemId> = Vec::new();
        let mut at: usize = 0;
        proof {
            assert(self.selection@.take(0) =~= Seq::<SceneId>::empty());
        }
        while at < self.selection.len()
            invariant
                at <= self.selection@.len(),
                ids@ == named(self.shown@, self.selection@.take(at as int), take),
            decreases self.selection@.len() - at,
        {
            proof {
                assert(self.selection@.take(at as int + 1).drop_last() =~= self.selection@.take(
                    at as int,
                ));
            }
            if let Some(item) = self.get(self.selection[at]) {
                let taken = match take {
                    Take::All => true,
                    Take::Unlocked => !item.locked,
                    Take::Locked => item.locked,
                };
                if taken {
                    ids.push(item.doc);
                }
            }
            at = at + 1;
        }
        proof {
            assert(self.selection@.take(self.selection@.len() as int) =~= self.selection@);
        }
        ids
    }

    /// The selection as document ids, in selection order.
    pub fn selected_ids(&self) -> (ids: Vec<ItemId>)
        ensures
            ids@ == named(self.shown@, self.selection@, Take::All),
    {
        self.take_selected(Take::All)
    }

    /// The selection without anything locked: what a command that moves items acts on.
    pub fn unlocked_selected_ids(&self) -> (ids: Vec<ItemId>)
        ensures
            ids@ == named(self.shown@, self.selection@, Take::Unlocked),
    {
        self.take_selected(Take::Unlocked)
    }

    /// How many of the selected items are locked.
    pub fn locked_selected_count(&self) -> (count: usize)
        ensures
            count == named(self.shown@, self.selection@, Take::Locked).len(),
    {
        self.take_selected(Take::Locked).len()
    }

    /// Replaces the selection with whatever of `ids` still exists.
    pub fn select(&mut self, ids: &Vec<ItemId>)
        ensures
            final(self).shown == old(self).shown,
            final(self).selection@ == scenes(old(self).shown@, ids@),
    {
        let mut selection: Vec<SceneId> = Vec::new();
        let mut at: usize = 0;
        proof {
            assert(ids@.take(0) =~= Seq::<ItemId>::empty());
        }
        while at < ids.len()
            invariant
                at <= ids@.len(),
                *self == *old(self),
                selection@ == scenes(self.shown@, ids@.take(at as int)),
            decreases ids@.len() - at,
        {
            proof {
                assert(ids@.take(at as int + 1).drop_last() =~= ids@.take(at as int));
            }
            if let Some(id) = self.scene_id(ids[at]) {
                selection.push(id);
            }
            at = at + 1;
        }
        proof {
            assert(ids@.take(ids@.len() as int) =~= ids@);
        }
        self.selection = selection;
    }

    /// The projection was rebuilt. The selection keeps only what is still shown.
    pub fn reproject(&mut self, shown: Vec<Shown>)
        ensures
            final(self).shown == shown,
            final(self).selection@ == still_shown(shown@, old(self).selection@),
    {
        self.shown = shown;
        let mut kept: Vec<SceneId> = Vec::new();
        let mut at: usize = 0;
        proof {
            assert(self.selection@.take(0) =~= Seq::<SceneId>::empty());
        }
        while at < self.selection.len()
            invariant
                at <= self.selection@.len(),
                self.shown == shown,
                self.selection == old(self).selection,
                kept@ == still_shown(shown@, self.selection@.take(at as int)),
            decreases self.selection@.len() - at,
        {
            proof {
                assert(self.selection@.take(at as int + 1).drop_last() =~= self.selection@.take(
                    at as int,
                ));
            }
            let id = self.selection[at];
            if self.get(id).is_some() {
                kept.push(id);
            }
            at = at + 1;
        }
        proof {
            assert(self.selection@.take(self.selection@.len() as int) =~= self.selection@);
        }
        self.selection = kept;
    }

    /// A click: `hit` is the topmost item under it, if there is one.
    pub fn pick(&mut self, hit: Option<SceneId>, additive: bool)
        ensures
            final(self).shown == old(self).shown,
            final(self).selection@ == picked(old(self).selection@, hit, additive),
    {
        match hit {
            Some(id) => {
                if !additive {
                    self.selection.clear();
                    self.selection.push(id);
                    proof {
                        assert(self.selection@ =~= seq![id]);
                    }
                    return ;
                }
                let mut at: usize = 0;
                while at < self.selection.len()
                    invariant
                        at <= self.selection@.len(),
                        *self == *old(self),
                        hit == Some(id),
                        additive,
                        forall|k: int| 0 <= k < at ==> self.selection@[k] != id,
                    decreases self.selection@.len() - at,
                {
                    if self.selection[at] == id {
                        proof {
                            let was = self.selection@;
                            assert(was[at as int] == id);
                            assert(was.contains(id));
                            was.index_of_first_ensures(id);
                            assert(was.index_of_first(id)->0 == at) by {
                                let first = was.index_of_first(id)->0;
                                if first < at {
                                    assert(was[first] != id);
                                }
                            }
                        }
                        let _gone = self.selection.remove(at);
                        return ;
                    }
                    at = at + 1;
                }
                self.selection.push(id);
            },
            None => {
                if !additive {
                    self.selection.clear();
                    proof {
                        assert(self.selection@ =~= Seq::<SceneId>::empty());
                    }
                }
            },
        }
    }

    /// Selects everything a rectangle caught.
    pub fn marquee(&mut self, hits: &Vec<SceneId>, additive: bool)
        ensures
            final(self).shown == old(self).shown,
            final(self).selection@ == swept(
                if additive {
                    old(self).selection@
                } else {
                    Seq::empty()
                },
                hits@,
            ),
    {
        if !additive {
            self.selection.clear();
            proof {
                assert(self.selection@ =~= Seq::<SceneId>::empty());
            }
        }
        let ghost start = self.selection@;
        let mut at: usize = 0;
        proof {
            assert(hits@.take(0) =~= Seq::<SceneId>::empty());
        }
        while at < hits.len()
            invariant
                at <= hits@.len(),
                self.shown == old(self).shown,
                self.selection@ == swept(start, hits@.take(at as int)),
            decreases hits@.len() - at,
        {
            proof {
                assert(hits@.take(at as int + 1).drop_last() =~= hits@.take(at as int));
            }
            if !has_scene(&self.selection, hits[at]) {
                self.selection.push(hits[at]);
            }
            at = at + 1;
        }
        proof {
            assert(hits@.take(hits@.len() as int) =~= hits@);
        }
    }

    pub fn clear_selection(&mut self)
        ensures
            final(self).shown == old(self).shown,
            final(self).selection@.len() == 0,
    {
        self.selection.clear();
    }

    /// Selects everything shown, in ascending order of scene id.
    pub fn select_all(&mut self)
        ensures
            final(self).shown == old(self).shown,
            final(self).selection@ == all_ranked(old(self).shown@),
    {
        let mut ids: Vec<SceneId> = Vec::new();
        let mut at: usize = 0;
        proof {
            assert(self.shown@.take(0) =~= Seq::<Shown>::empty());
        }
        while at < self.shown.len()
            invariant
                at <= self.shown@.len(),
                *self == *old(self),
                ids@ == all_ranked(self.shown@.take(at as int)),
            decreases self.shown@.len() - at,
        {
            proof {
                assert(self.shown@.take(at as int + 1).drop_last() =~= self.shown@.take(
                    at as int,
                ));
            }
            rank_in(&mut ids, self.shown[at].scene);
            at = at + 1;
        }
        proof {
            assert(self.shown@.take(self.shown@.len() as int) =~= self.shown@);
        }
        self.selection = ids;
    }

    /// The items Delete removes: the selection without anything locked. `None` where nothing
    /// is selected, and then nothing is edited.
    pub fn doomed(&self) -> (ids: Option<Vec<ItemId>>)
        ensures
            ids is Some <==> self.selection@.len() > 0,
            ids is Some ==> ids->0@ == named(self.shown@, self.selection@, Take::Unlocked),
    {
        if self.selection.len() == 0 {
            return None;
        }
        Some(self.unlocked_selected_ids())
    }

    /// The removals that [`Editor::doomed`] named were tried, one by one. A later id may have
    /// gone with an earlier one, so only those that were removed are counted. Nothing stays
    /// selected.
    pub fn delete_selection(&mut self, removed: &Vec<bool>) -> (count: usize)
        requires
            removed@.len() == named(old(self).shown@, old(self).selection@, Take::Unlocked).len(),
        ensures
            final(self).shown == old(self).shown,
            final(self).selection@.len() == 0,
            count == successes(removed@),
            old(self).selection@.len() == 0 ==> count == 0,
    {
        self.selection.clear();
        count_successes(removed)
    }

    /// An undo was tried. If it changed the document, nothing stays selected: an
    /// item that comes back has a new id. Returns whether to reproject and record.
    pub fn undo(&mut self, changed: bool) -> (follow_up: bool)
        ensures
            follow_up == changed,
            final(self).shown == old(self).shown,
            final(self).selection@ == (if changed {
                Seq::empty()
            } else {
                old(self).selection@
            }),
    {
        if changed {
            self.selection.clear();
            proof {
                assert(self.selection@ =~= Seq::<SceneId>::empty());
            }
        }
        changed
    }

    /// A redo was tried. As with an undo, if it changed the document nothing stays selected.
    pub fn redo(&mut self, changed: bool) -> (follow_up: bool)
        ensures
            follow_up == changed,
            final(self).shown == old(self).shown,
            final(self).selection@ == (if changed {
                Seq::empty()
            } else {
                old(self).selection@
            }),
    {
        if changed {
            self.selection.clear();
            proof {
                assert(self.selection@ =~= Seq::<SceneId>::empty());
            }
        }
        changed
    }

    /// An import ended and the projection was rebuilt with what arrived.
    pub fn imported(&mut self, shown: Vec<Shown>, items: &Vec<ItemId>, after: AfterImport)
        ensures
            final(self).shown == shown,
            final(self).selection@ == (match after {
                AfterImport::SelectPasted => scenes(shown@, items@),
                AfterImport::SelectNothing => Seq::empty(),
            }),
    {
        self.selection.clear();
        self.shown = shown;
        match after {
            AfterImport::SelectPasted => self.select(items),
            AfterImport::SelectNothing => {
                proof {
                    assert(self.selection@ =~= Seq::<SceneId>::empty());
                }
            },
        }
    }
}

fn rank_in(list: &mut Vec<SceneId>, one: SceneId)
    ensures
        final(list)@ == ranked(old(list)@, one),
{
    let ghost was = list@;
    let mut at: usize = list.len();
    proof {
        assert(was.take(was.len() as int) =~= was);
        assert(ranked(was, one) + was.skip(was.len() as int) =~= ranked(was, one));
    }
    while at > 0 && one < list[at - 1]
        invariant
            at <= list@.len(),
            was == list@,
            *list == *old(list),
            ranked(was, one) == ranked(was.take(at as int), one) + was.skip(at as int),
        decreases at,
    {
        proof {
            let head = was.take(at as int);
            assert(head.last() == was[at - 1]);
            assert(head.drop_last() =~= was.take(at - 1));
            assert(ranked(was.take(at - 1), one).push(was[at - 1]) + was.skip(at as int)
                =~= ranked(was.take(at - 1), one) + was.skip(at - 1));
        }
        at = at - 1;
    }
    proof {
        let head = was.take(at as int);
        if at > 0 {
            assert(head.last() == was[at - 1]);
        }
        assert(ranked(head, one) == head.push(one));
        assert(ranked(was, one) =~= was.insert(at as int, one));
    }
    list.insert(at, one);
}

// ----- edits ---------------------------------------------------------------------------

/// What follows an edit.
pub open spec fn after_edit(succeeded: bool) -> AfterEdit {
    AfterEdit { close_undo_group: !succeeded, reproject: true, record: succeeded }
}

/// What follows an edit of one item's content.
pub open spec fn after_content(succeeded: bool, refreshed: Refreshed) -> AfterEdit {
    AfterEdit {
        close_undo_group: !succeeded,
        reproject: !succeeded || refreshed != Refreshed::InPlace,
        record: succeeded,
    }
}

/// What a new board file is called.
pub open spec fn called(path: Seq<char>) -> Seq<char> {
    match stem(path) {
        Some(stem) => stem,
        None => "Untitled"@,
    }
}

/// What follows an edit. One that failed part way has usually already changed the document:
/// its undo group is closed, or every later group would be refused, and the projection is
/// rebuilt, or it would be drawn and hit where it no longer is. It is not recorded.
pub fn edit(succeeded: bool) -> (after: AfterEdit)
    ensures
        after == after_edit(succeeded),
        after == (AfterEdit {
            close_undo_group: !succeeded,
            reproject: true,
            record: succeeded,
        }),
{
    AfterEdit { close_undo_group: !succeeded, reproject: true, record: succeeded }
}

/// What follows an edit of one item's content, given what refreshing that item alone came
/// to: the whole projection is rebuilt only where that was not enough.
pub fn edit_content(succeeded: bool, refreshed: Refreshed) -> (after: AfterEdit)
    ensures
        after == after_content(succeeded, refreshed),
        after == (AfterEdit {
            close_undo_group: !succeeded,
            reproject: !succeeded || refreshed != Refreshed::InPlace,
            record: succeeded,
        }),
{
    if !succeeded {
        return AfterEdit { close_undo_group: true, reproject: true, record: false };
    }
    AfterEdit {
        close_undo_group: false,
        reproject: refreshed != Refreshed::InPlace,
        record: true,
    }
}

/// How many of a batch succeeded.
pub open spec fn successes(outcomes: Seq<bool>) -> nat
    decreases outcomes.len(),
{
    if outcomes.len() == 0 {
        0
    } else {
        successes(outcomes.drop_last()) + (if outcomes.last() {
            1nat
        } else {
            0nat
        })
    }
}

fn count_successes(outcomes: &Vec<bool>) -> (count: usize)
    ensures
        count == successes(outcomes@),
{
    let mut count: usize = 0;
    let mut at: usize = 0;
    proof {
        assert(outcomes@.take(0) =~= Seq::<bool>::empty());
    }
    while at < outcomes.len()
        invariant
            at <= outcomes@.len(),
            count == successes(outcomes@.take(at as int)),
            count <= at,
        decreases outcomes@.len() - at,
    {
        proof {
            assert(outcomes@.take(at as int + 1).drop_last() =~= outcomes@.take(at as int));
        }
        if outcomes[at] {
            count = count + 1;
        }
        at = at + 1;
    }
    proof {
        assert(outcomes@.take(outcomes@.len() as int) =~= outcomes@);
    }
    count
}

/// Whether a move writes anything at all. One with nothing to place and nothing to reparent
/// opens no undo group.
pub fn writes_a_move(placements: usize, reparents: usize) -> (answer: bool)
    ensures
        answer == (placements > 0 || reparents > 0),
{
    placements > 0 || reparents > 0
}

/// How many placements of a move were written. An item deleted from under the drag is not an
/// error, and a refused reparenting does not undo the move.
pub fn commit_move(placed: &Vec<bool>) -> (written: usize)
    ensures
        written == successes(placed@),
{
    count_successes(placed)
}

/// How many items clearing a board removed, from the totals before and after: a frame's
/// children go with it, so the removals themselves do not tell. A clearing that failed
/// removed none.
pub fn clear(before: usize, after: Option<usize>) -> (removed: usize)
    ensures
        removed == (match after {
            Some(after) => if before >= after {
                before - after
            } else {
                0
            },
            None => 0,
        }),
{
    match after {
        Some(after) => if before >= after {
            before - after
        } else {
            0
        },
        None => 0,
    }
}

// ----- syncing -------------------------------------------------------------------------

/// The label of the snapshot taken before the first merge.
pub const BEFORE_SYNC: &'static str = "before the first change from another machine";

/// Whether any restore point carries a label.
pub open spec fn labelled(labels: Seq<Option<String>>, label: Seq<char>) -> bool {
    exists|i: int| 0 <= i < labels.len() && (#[trigger] labels[i]) is Some && labels[i]->0@ == label
}

/// Whether a snapshot is to be taken before a change from the network is merged: once per
/// board ever, known by its label. `None` is a board that is not stored, or one whose restore
/// points could not be read, and then the merge goes on without.
pub fn takes_restore_point(labels: Option<&Vec<Option<String>>>) -> (answer: bool)
    ensures
        answer == (labels is Some && !labelled(labels->0@, BEFORE_SYNC@)),
{
    let list = match labels {
        Some(list) => list,
        None => return false,
    };
    let mut at: usize = 0;
    while at < list.len()
        invariant
            at <= list@.len(),
            labels == Some(list),
            forall|k: int|
                0 <= k < at ==> !((#[trigger] list@[k]) is Some && list@[k]->0@ == BEFORE_SYNC@),
        decreases list@.len() - at,
    {
        if let Some(label) = &list[at] {
            if same(label.as_str(), BEFORE_SYNC) {
                return false;
            }
        }
        at = at + 1;
    }
    true
}

/// Whether a round trip to the server starts: only for a board that syncs, when one is due,
/// and when its changes could be exported.
pub fn sync_now(attached: bool, ready: bool, exported: bool) -> (starts: bool)
    ensures
        starts == (attached && ready && exported),
{
    attached && ready && exported
}

// ----- where boards live ---------------------------------------------------------------

/// The title a new board file gets: the stem of its name.
pub fn title_for(path: &str) -> (title: String)
    ensures
        title@ == called(path@),
        title@ == (match stem(path@) {
            Some(stem) => stem,
            None => "Untitled"@,
        }),
{
    match file_stem(path) {
        Some(stem) => stem,
        None => "Untitled".to_owned(),
    }
}

/// Which platform's conventions decide where data is kept.
#[derive(Clone, Copy, Debug, PartialEq, Eq, Structural)]
pub enum System {
    MacOs,
    Windows,
    Other,
}

/// The directories the environment names.
#[derive(Clone, Debug)]
pub struct Directories {
    pub home: Option<String>,
    pub app_data: Option<String>,
    pub xdg_data_home: Option<String>,
}

/// The directory everything is kept in: the platform's own, or the current directory where
/// the environment names none.
pub open spec fn data_root(system: System, directories: Directories) -> Seq<char> {
    let base = match system {
        System::MacOs => match directories.home {
            Some(home) => inside(inside(home@, "Library"@), "Application Support"@),
            None => "."@,
        },
        System::Windows => match directories.app_data {
            Some(data) => data@,
            None => "."@,
        },
        System::Other => match directories.xdg_data_home {
            Some(data) => data@,
            None => match directories.home {
                Some(home) => inside(home@, ".local/share"@),
                None => "."@,
            },
        },
    };
    inside(base, "Vellum"@)
}

/// Where boards and pictures are kept.
pub fn data_directory(system: System, directories: &Directories) -> (path: String)
    ensures
        path@ == data_root(system, *directories),
{
    let base = match system {
        System::MacOs => match &directories.home {
            Some(home) => join(join(home.as_str(), "Library").as_str(), "Application Support"),
            None => ".".to_owned(),
        },
        System::Windows => match &directories.app_data {
            Some(data) => data.clone(),
            None => ".".to_owned(),
        },
        System::Other => match &directories.xdg_data_home {
            Some(data) => data.clone(),
            None => match &directories.home {
                Some(home) => join(home.as_str(), ".local/share"),
                None => ".".to_owned(),
            },
        },
    };
    join(base.as_str(), "Vellum")
}

/// The board opened when none is named.
pub fn default_board_path(system: System, directories: &Directories) -> (path: String)
    ensures
        path@ == inside(inside(data_root(system, *directories), "boards"@), "board.vellum"@),
{
    let boards = join(data_directory(system, directories).as_str(), "boards");
    join(boards.as_str(), "board.vellum")
}

/// Where pictures are kept, shared across every board.
pub fn blob_directory(system: System, directories: &Directories) -> (path: String)
    ensures
        path@ == inside(data_root(system, *directories), "blobs"@),
{
    join(data_directory(system, directories).as_str(), "blobs")
}

/// Where backups to import from are kept.
pub fn archive_directory(system: System, directories: &Directories) -> (path: String)
    ensures
        path@ == inside(data_root(system, *directories), "archives"@),
{
    join(data_directory(system, directories).as_str(), "archives")
}

// ----- laws ----------------------------------------------------------------------------

proof fn sweeping_keeps_members(selection: Seq<SceneId>, hits: Seq<SceneId>, id: SceneId)
    ensures
        swept(selection, hits).contains(id) == (selection.contains(id) || hits.contains(id)),
    decreases hits.len(),
{
    if hits.len() > 0 {
        let rest = hits.drop_last();
        let before = swept(selection, rest);
        let all = swept(selection, hits);
        sweeping_keeps_members(selection, rest, id);
        if hits.contains(id) {
            let k = choose|k: int| 0 <= k < hits.len() && hits[k] == id;
            if k < rest.len() {
                assert(rest[k] == id);
            }
        }
        if rest.contains(id) {
            let k = choose|k: int| 0 <= k < rest.len() && rest[k] == id;
            assert(hits[k] == id);
        }
        assert(hits[hits.len() - 1] == hits.last());
        if before.contains(id) {
            let k = choose|k: int| 0 <= k < before.len() && before[k] == id;
            assert(all[k] == id);
        }
        if !before.contains(hits.last()) {
            assert(all[before.len() as int] == hits.last());
        }
        if all.contains(id) {
            let k = choose|k: int| 0 <= k < all.len() && all[k] == id;
            if k < before.len() {
                assert(before[k] == id);
            }
        }
    }
}

/// A marquee selects everything it caught, each item once, and an additive one keeps what
/// was selected: it selects exactly what was selected or caught, and nothing twice.
pub proof fn a_marquee_selects_each_item_once(
    selection: Seq<SceneId>,
    hits: Seq<SceneId>,
    id: SceneId,
)
    requires
        selection.no_duplicates(),
    ensures
        swept(selection, hits).no_duplicates(),
        swept(selection, hits).contains(id) == (selection.contains(id) || hits.contains(id)),
    decreases hits.len(),
{
    sweeping_keeps_members(selection, hits, id);
    if hits.len() > 0 {
        a_marquee_selects_each_item_once(selection, hits.drop_last(), id);
        let before = swept(selection, hits.drop_last());
        let all = swept(selection, hits);
        assert forall|i: int, j: int|
            0 <= i < all.len() && 0 <= j < all.len() && i != j implies all[i] != all[j] by {
            if i < before.len() && j < before.len() {
                assert(all[i] == before[i] && all[j] == before[j]);
            } else if i < before.len() {
                assert(all[i] == before[i]);
            } else if j < before.len() {
                assert(all[j] == before[j]);
            }
        }
    }
}

/// An additive click twice on the same item is no click at all: it adds the item and takes
/// it away again.
pub proof fn an_additive_click_toggles(selection: Seq<SceneId>, id: SceneId)
    requires
        !selection.contains(id),
    ensures
        picked(selection, Some(id), true).contains(id),
        picked(picked(selection, Some(id), true), Some(id), true) == selection,
{
    let once = selection.push(id);
    assert(once[selection.len() as int] == id);
    assert(once.contains(id));
    once.index_of_first_ensures(id);
    let at = once.index_of_first(id)->0;
    assert(at == selection.len()) by {
        if at < selection.len() {
            assert(selection[at] == id);
        }
    }
    assert(once.remove(at) =~= selection);
}

/// A lock survives Delete: no document item that is shown as locked is among what Delete
/// removes, whatever is selected.
pub proof fn a_locked_item_is_never_doomed(
    shown: Seq<Shown>,
    selection: Seq<SceneId>,
    k: int,
) -> (at: int)
    requires
        0 <= k < named(shown, selection, Take::Unlocked).len(),
    ensures
        0 <= at < selection.len(),
        shown_as(shown, selection[at]) is Some,
        !shown_as(shown, selection[at])->0.locked,
        shown_as(shown, selection[at])->0.doc == named(shown, selection, Take::Unlocked)[k],
    decreases selection.len(),
{
    let before = named(shown, selection.drop_last(), Take::Unlocked);
    if k < before.len() {
        let at = a_locked_item_is_never_doomed(shown, selection.drop_last(), k);
        assert(selection.drop_last()[at] == selection[at]);
        at
    } else {
        selection.len() - 1
    }
}

/// Every selected item that is shown is either locked or not, and is counted as that: the
/// unlocked ids and the locked count together are the selected ids.
pub proof fn locked_and_unlocked_are_all(shown: Seq<Shown>, selection: Seq<SceneId>)
    ensures
        named(shown, selection, Take::Unlocked).len() + named(shown, selection, Take::Locked).len()
            == named(shown, selection, Take::All).len(),
    decreases selection.len(),
{
    if selection.len() > 0 {
        locked_and_unlocked_are_all(shown, selection.drop_last());
    }
}

/// After the projection is rebuilt, nothing is selected that is not shown.
pub proof fn nothing_stale_stays_selected(shown: Seq<Shown>, selection: Seq<SceneId>, k: int)
    requires
        0 <= k < still_shown(shown, selection).len(),
    ensures
        shown_as(shown, still_shown(shown, selection)[k]) is Some,
    decreases selection.len(),
{
    let before = still_shown(shown, selection.drop_last());
    if k < before.len() {
        nothing_stale_stays_selected(shown, selection.drop_last(), k);
    }
}

/// A parked board comes back with its selection: rebuilding the projection of everything
/// that is selected keeps the selection as it is.
pub proof fn a_complete_projection_keeps_the_selection(
    shown: Seq<Shown>,
    selection: Seq<SceneId>,
)
    requires
        forall|k: int|
            0 <= k < selection.len() ==> shown_as(shown, #[trigger] selection[k]) is Some,
    ensures
        still_shown(shown, selection) == selection,
    decreases selection.len(),
{
    if selection.len() > 0 {
        let rest = selection.drop_last();
        assert forall|k: int| 0 <= k < rest.len() implies shown_as(
            shown,
            #[trigger] rest[k],
        ) is Some by {
            assert(rest[k] == selection[k]);
        }
        a_complete_projection_keeps_the_selection(shown, rest);
        assert(selection.last() == selection[selection.len() - 1]);
        assert(rest.push(selection.last()) =~= selection);
    }
}

proof fn ranking_keeps_order(list: Seq<SceneId>, one: SceneId)
    requires
        forall|i: int, j: int| 0 <= i < j < list.len() ==> list[i] <= list[j],
    ensures
        forall|i: int, j: int|
            0 <= i < j < ranked(list, one).len() ==> ranked(list, one)[i] <= ranked(list, one)[j],
        ranked(list, one).to_multiset() == list.to_multiset().insert(one),
        list.len() > 0 ==> ranked(list, one).last() == (if one < list.last() {
            list.last()
        } else {
            one
        }),
        list.len() == 0 ==> ranked(list, one).last() == one,
    decreases list.len(),
{
    broadcast use vstd::seq_lib::group_to_multiset_ensures;

    if list.len() > 0 && one < list.last() {
        let rest = list.drop_last();
        ranking_keeps_order(rest, one);
        let head = ranked(rest, one);
        let all = ranked(list, one);
        assert(rest.len() > 0 ==> rest.last() <= list.last());
        assert(head.len() > 0);
        assert(head.last() <= list.last());
        assert forall|i: int, j: int| 0 <= i < j < all.len() implies all[i] <= all[j] by {
            if j < head.len() {
                assert(all[i] == head[i] && all[j] == head[j]);
            } else {
                assert(all[i] == head[i]);
                if i < head.len() - 1 {
                    assert(head[i] <= head[head.len() - 1]);
                }
            }
        }
        assert(rest.push(list.last()) =~= list);
    } else {
        let all = ranked(list, one);
        assert forall|i: int, j: int| 0 <= i < j < all.len() implies all[i] <= all[j] by {
            if j == list.len() && i < list.len() - 1 {
                assert(list[i] <= list[list.len() - 1]);
            }
        }
    }
}

/// Select all selects everything that is shown, in ascending order.
pub proof fn select_all_selects_everything_in_order(shown: Seq<Shown>)
    ensures
        forall|i: int, j: int|
            0 <= i < j < all_ranked(shown).len() ==> all_ranked(shown)[i] <= all_ranked(shown)[j],
        all_ranked(shown).to_multiset() == shown.map_values(
            |item: Shown| item.scene,
        ).to_multiset(),
    decreases shown.len(),
{
    broadcast use vstd::seq_lib::group_to_multiset_ensures;

    let scenes = shown.map_values(|item: Shown| item.scene);
    if shown.len() > 0 {
        let rest = shown.drop_last();
        let rest_scenes = rest.map_values(|item: Shown| item.scene);
        select_all_selects_everything_in_order(rest);
        ranking_keeps_order(all_ranked(rest), shown.last().scene);
        assert(scenes =~= rest_scenes.push(shown.last().scene));
    } else {
        assert(scenes =~= Seq::<SceneId>::empty());
        assert(all_ranked(shown) =~= scenes);
    }
}

// ----- item by item ---------------------------------------------------------------------

/// What is shown under an id is the first item that has it, and nothing where none does; and
/// so for the id an item is shown under.
pub proof fn the_first_item_of_an_id_is_shown(shown: Seq<Shown>, id: SceneId, doc: ItemId, k: int)
    requires
        0 <= k <= shown.len(),
    ensures
        (forall|j: int| 0 <= j < k ==> (#[trigger] shown[j]).scene != id) ==> {
            &&& k == shown.len() ==> shown_as(shown, id) is None
            &&& k < shown.len() && shown[k].scene == id ==> shown_as(shown, id) == Some(shown[k])
        },
        (forall|j: int| 0 <= j < k ==> (#[trigger] shown[j]).doc != doc) ==> {
            &&& k == shown.len() ==> scene_of(shown, doc) is None
            &&& k < shown.len() && shown[k].doc == doc ==> scene_of(shown, doc) == Some(
                shown[k].scene,
            )
        },
    decreases shown.len(),
{
    if k > 0 {
        let rest = shown.skip(1);
        the_first_item_of_an_id_is_shown(rest, id, doc, k - 1);
        if forall|j: int| 0 <= j < k ==> (#[trigger] shown[j]).scene != id {
            assert(shown[0].scene != id);
            assert forall|j: int| 0 <= j < k - 1 implies (#[trigger] rest[j]).scene != id by {
                assert(shown[j + 1].scene != id);
            }
        }
        if forall|j: int| 0 <= j < k ==> (#[trigger] shown[j]).doc != doc {
            assert(shown[0].doc != doc);
            assert forall|j: int| 0 <= j < k - 1 implies (#[trigger] rest[j]).doc != doc by {
                assert(shown[j + 1].doc != doc);
            }
        }
    }
}

/// The items a selection names are those of it that are shown, in its order: all of them, those
/// that are not locked, or those that are.
pub proof fn a_selection_names_what_is_shown_of_it(shown: Seq<Shown>, selection: Seq<SceneId>)
    ensures
        named(shown, selection, Take::All) == selection.filter(
            |id: SceneId| shown_as(shown, id) is Some,
        ).map_values(|id: SceneId| shown_as(shown, id)->0.doc),
        named(shown, selection, Take::Unlocked) == selection.filter(
            |id: SceneId| shown_as(shown, id) is Some && !shown_as(shown, id)->0.locked,
        ).map_values(|id: SceneId| shown_as(shown, id)->0.doc),
        named(shown, selection, Take::Locked) == selection.filter(
            |id: SceneId| shown_as(shown, id) is Some && shown_as(shown, id)->0.locked,
        ).map_values(|id: SceneId| shown_as(shown, id)->0.doc),
        still_shown(shown, selection) == selection.filter(
            |id: SceneId| shown_as(shown, id) is Some,
        ),
    decreases selection.len(),
{
    reveal(Seq::filter);
    if selection.len() > 0 {
        a_selection_names_what_is_shown_of_it(shown, selection.drop_last());
    }
    let doc = |id: SceneId| shown_as(shown, id)->0.doc;
    assert(named(shown, selection, Take::All) =~= selection.filter(
        |id: SceneId| shown_as(shown, id) is Some,
    ).map_values(doc));
    assert(named(shown, selection, Take::Unlocked) =~= selection.filter(
        |id: SceneId| shown_as(shown, id) is Some && !shown_as(shown, id)->0.locked,
    ).map_values(doc));
    assert(named(shown, selection, Take::Locked) =~= selection.filter(
        |id: SceneId| shown_as(shown, id) is Some && shown_as(shown, id)->0.locked,
    ).map_values(doc));
}

/// Selecting items selects those that are shown, each under its id and in the order given.
pub proof fn items_are_selected_under_their_ids(shown: Seq<Shown>, ids: Seq<ItemId>)
    ensures
        scenes(shown, ids) == ids.filter(|doc: ItemId| scene_of(shown, doc) is Some).map_values(
            |doc: ItemId| scene_of(shown, doc)->0,
        ),
    decreases ids.len(),
{
    reveal(Seq::filter);
    if ids.len() > 0 {
        items_are_selected_under_their_ids(shown, ids.drop_last());
    }
    assert(scenes(shown, ids) =~= ids.filter(
        |doc: ItemId| scene_of(shown, doc) is Some,
    ).map_values(|doc: ItemId| scene_of(shown, doc)->0));
}

/// What a click selects: a plain one what it hit and nothing else; one that adds puts what it
/// hit last, or takes it away where it was selected and leaves the others in their order.
pub proof fn a_click_selects_what_it_hit(selection: Seq<SceneId>, id: SceneId)
    requires
        selection.no_duplicates(),
    ensures
        picked(selection, Some(id), false) == seq![id],
        picked(selection, None, false) == Seq::<SceneId>::empty(),
        picked(selection, None, true) == selection,
        !selection.contains(id) ==> picked(selection, Some(id), true) == selection.push(id),
        selection.contains(id) ==> picked(selection, Some(id), true) == selection.filter(
            |other: SceneId| other != id,
        ),
{
    if selection.contains(id) {
        selection.index_of_first_ensures(id);
        let at = selection.index_of_first(id)->0;
        let other = |other: SceneId| other != id;
        let front = selection.take(at);
        let back = selection.skip(at + 1);
        assert(selection =~= front + (seq![id] + back));
        Seq::filter_distributes_over_add(front, seq![id] + back, other);
        Seq::filter_distributes_over_add(seq![id], back, other);
        assert forall|k: int| 0 <= k < front.len() implies front[k] != id by {
            assert(front[k] == selection[k]);
        }
        assert forall|k: int| 0 <= k < back.len() implies back[k] != id by {
            assert(back[k] == selection[at + 1 + k]);
        }
        all_others_stay(front, id);
        all_others_stay(back, id);
        reveal_with_fuel(Seq::filter, 2);
        assert(seq![id].drop_last() =~= Seq::<SceneId>::empty());
        assert(seq![id].filter(other) =~= Seq::<SceneId>::empty());
        assert(selection.remove(at) =~= selection.filter(other));
    }
}

proof fn all_others_stay(list: Seq<SceneId>, id: SceneId)
    requires
        forall|k: int| 0 <= k < list.len() ==> list[k] != id,
    ensures
        list.filter(|other: SceneId| other != id) == list,
    decreases list.len(),
{
    reveal(Seq::filter);
    if list.len() > 0 {
        let rest = list.drop_last();
        assert forall|k: int| 0 <= k < rest.len() implies rest[k] != id by {
            assert(rest[k] == list[k]);
        }
        all_others_stay(rest, id);
        assert(list[list.len() - 1] != id);
        assert(rest.push(list.last()) =~= list);
    }
}

/// What a rectangle catches goes behind what was selected, one after another, and what is there
/// already stays where it is.
pub proof fn what_is_caught_goes_behind(selection: Seq<SceneId>, hits: Seq<SceneId>, hit: SceneId)
    ensures
        swept(selection, Seq::empty()) == selection,
        selection.is_prefix_of(swept(selection, hits)),
        swept(selection, hits.push(hit)) == (if selection.contains(hit) || hits.contains(hit) {
            swept(selection, hits)
        } else {
            swept(selection, hits).push(hit)
        }),
    decreases hits.len(),
{
    sweeping_keeps_members(selection, hits, hit);
    assert(hits.push(hit).drop_last() =~= hits);
    if hits.len() > 0 {
        what_is_caught_goes_behind(selection, hits.drop_last(), hit);
    }
}

/// What succeeded of a batch is counted: as many as are true.
pub proof fn what_succeeded_is_counted(outcomes: Seq<bool>)
    ensures
        successes(outcomes) == outcomes.filter(|outcome: bool| outcome).len(),
    decreases outcomes.len(),
{
    reveal(Seq::filter);
    if outcomes.len() > 0 {
        what_succeeded_is_counted(outcomes.drop_last());
    }
}

/// Where everything is kept, spelled out: under the library folder of the home on a Mac, in the
/// folder for applications' data on Windows, in the data folder of the desktop or under the
/// home elsewhere, and beside the program where the environment names none of these.
pub proof fn everything_is_kept_in_one_folder(
    directories: Directories,
    home: Seq<char>,
    data: Seq<char>,
)
    requires
        home.len() > 0 && home.last() != '/',
        data.len() > 0 && data.last() != '/',
    ensures
        ({
            let own = "/Vellum"@;
            let here = "./Vellum"@;
            let mac = data_root(System::MacOs, directories);
            let windows = data_root(System::Windows, directories);
            let other = data_root(System::Other, directories);
            &&& directories.home is Some && directories.home->0@ == home ==> mac == home
                + "/Library/Application Support"@ + own
            &&& directories.home is None ==> mac == here
            &&& directories.app_data is Some && directories.app_data->0@ == data ==> windows == data
                + own
            &&& directories.app_data is None ==> windows == here
            &&& directories.xdg_data_home is Some && directories.xdg_data_home->0@ == data ==> other
                == data + own
            &&& directories.xdg_data_home is None && directories.home is Some
                && directories.home->0@ == home ==> other == home + "/.local/share"@ + own
            &&& directories.xdg_data_home is None && directories.home is None ==> other == here
        }),
{
    reveal_strlit("/Vellum");
    reveal_strlit("./Vellum");
    reveal_strlit("Vellum");
    reveal_strlit(".");
    reveal_strlit("Library");
    reveal_strlit("Application Support");
    reveal_strlit("/Library/Application Support");
    reveal_strlit(".local/share");
    reveal_strlit("/.local/share");
    let slash = seq!['/'];
    assert("/Vellum"@ =~= slash + "Vellum"@);
    assert("./Vellum"@ =~= "."@ + slash + "Vellum"@);
    assert("/.local/share"@ =~= slash + ".local/share"@);
    assert("/Library/Application Support"@ =~= slash + "Library"@ + slash + "Application Support"@);
    assert(inside("."@, "Vellum"@) =~= "./Vellum"@);
    assert(inside(data, "Vellum"@) =~= data + "/Vellum"@);
    let library = inside(home, "Library"@);
    assert(library.last() == "Library"@[6]);
    let support = inside(library, "Application Support"@);
    assert(support.last() == "Application Support"@[18]);
    assert(inside(support, "Vellum"@) =~= home + "/Library/Application Support"@ + "/Vellum"@);
    let share = inside(home, ".local/share"@);
    assert(share.last() == ".local/share"@[11]);
    assert(inside(share, "Vellum"@) =~= home + "/.local/share"@ + "/Vellum"@);
}

/// A label is found where one restore point carries it, whatever the others carry.
pub proof fn a_label_is_found_where_it_is_carried(
    labels: Seq<Option<String>>,
    other: Option<String>,
    label: Seq<char>,
)
    ensures
        !labelled(Seq::empty(), label),
        other is Some && other->0@ == label ==> labelled(labels.push(other), label),
        !(other is Some && other->0@ == label) ==> (labelled(labels.push(other), label)
            <==> labelled(labels, label)),
        BEFORE_SYNC@ == "before the first change from another machine"@,
{
    let more = labels.push(other);
    assert(more[labels.len() as int] == other);
    if labelled(labels, label) {
        let k = choose|k: int|
            0 <= k < labels.len() && (#[trigger] labels[k]) is Some && labels[k]->0@ == label;
        assert(more[k] == labels[k]);
    }
    if labelled(more, label) {
        let k = choose|k: int|
            0 <= k < more.len() && (#[trigger] more[k]) is Some && more[k]->0@ == label;
        if k < labels.len() {
            assert(labels[k] == more[k]);
        }
    }
}

/// What follows an edit: one that succeeded is recorded, one that failed closes its undo group,
/// and the projection is rebuilt but where the edited item alone was refreshed in its place.
pub proof fn an_edit_is_recorded_or_closed(succeeded: bool, refreshed: Refreshed)
    ensures
        after_edit(succeeded) == (AfterEdit {
            close_undo_group: !succeeded,
            reproject: true,
            record: succeeded,
        }),
        after_content(succeeded, refreshed).record == succeeded,
        after_content(succeeded, refreshed).close_undo_group == !succeeded,
        after_content(succeeded, refreshed).reproject <==> !succeeded || refreshed is Moved
            || refreshed is Failed,
{
}

/// A new board file is called by its stem, and by a fixed name where it has none.
pub proof fn a_new_file_is_called_by_its_stem(dir: Seq<char>, name: Seq<char>)
    requires
        name.len() > 0,
        forall|i: int| 0 <= i < name.len() ==> name[i] != '/',
    ensures
        called(dir + seq!['/'] + name + ".vellum"@) == name,
        called(Seq::empty()) == "Untitled"@,
{
    a_board_file_is_named_by_its_stem(dir, name);
    the_root_has_no_components();
}

} // verus!
