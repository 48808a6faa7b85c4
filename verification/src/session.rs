//! Several boards open at once.
//!
//! The board on screen is held elsewhere. A [`Session`] holds the rest: one [`Parked`] per
//! open tab that is not in front, with everything the tab has to come back to. It is a set
//! keyed by tab: the order of the tabs is the strip's.

use vstd::prelude::*;

verus! {

/// Which tab.
pub type TabKey = u64;

/// One open board that is not the one on screen: its editor, and the camera it was left at.
#[derive(Clone, Debug)]
pub struct Parked<E, C> {
    pub key: TabKey,
    pub path: String,
    pub editor: E,
    pub camera: C,
}

impl<E, C> Parked<E, C> {
    pub fn key(&self) -> (key: TabKey)
        ensures
            key == self.key,
    {
        self.key
    }

    pub fn path(&self) -> (path: &str)
        ensures
            path@ == self.path@,
    {
        self.path.as_str()
    }

    pub fn editor(&self) -> (editor: &E)
        ensures
            *editor == self.editor,
    {
        &self.editor
    }

    /// The editor, to be changed in place: the tab, the path and the camera stay.
    pub fn editor_mut(&mut self) -> (editor: &mut E)
        ensures
            *editor == old(self).editor,
            *final(self) == (Parked { editor: *final(editor), ..*old(self) }),
    {
        &mut self.editor
    }

    pub fn camera(&self) -> (camera: &C)
        ensures
            *camera == self.camera,
    {
        &self.camera
    }
}

/// The open boards that are not in front.
#[derive(Clone, Debug)]
pub struct Session<E, C> {
    pub parked: Vec<Parked<E, C>>,
}

/// Whether no tab is parked twice.
pub open spec fn one_per_tab<E, C>(parked: Seq<Parked<E, C>>) -> bool {
    forall|i: int, j: int|
        0 <= i < j < parked.len() ==> (#[trigger] parked[i]).key != (#[trigger] parked[j]).key
}

/// Where the board of a tab is parked, or how many are parked.
pub open spec fn place_of<E, C>(parked: Seq<Parked<E, C>>, key: TabKey) -> int
    decreases parked.len(),
{
    if parked.len() == 0 || parked[0].key == key {
        0
    } else {
        1 + place_of(parked.skip(1), key)
    }
}

/// Those of `parked` whose tab is among `live`, or those whose tab is not, in order.
pub open spec fn chosen<E, C>(
    parked: Seq<Parked<E, C>>,
    live: Seq<TabKey>,
    kept: bool,
) -> Seq<Parked<E, C>>
    decreases parked.len(),
{
    if parked.len() == 0 {
        parked
    } else if live.contains(parked.last().key) == kept {
        chosen(parked.drop_last(), live, kept).push(parked.last())
    } else {
        chosen(parked.drop_last(), live, kept)
    }
}

fn is_live(live: &Vec<TabKey>, key: TabKey) -> (answer: bool)
    ensures
        answer == live@.contains(key),
{
    let mut at: usize = 0;
    while at < live.len()
        invariant
            at <= live@.len(),
            forall|k: int| 0 <= k < at ==> live@[k] != key,
        decreases live@.len() - at,
    {
        if live[at] == key {
            proof {
                assert(live@[at as int] == key);
            }
            return true;
        }
        at = at + 1;
    }
    false
}

impl<E, C> Session<E, C> {
    /// Nothing parked.
    pub fn new() -> (session: Session<E, C>)
        ensures
            session.parked@.len() == 0,
            session.well_formed(),
    {
        Session { parked: Vec::new() }
    }

    /// No tab is parked twice.
    pub open spec fn well_formed(self) -> bool {
        one_per_tab(self.parked@)
    }

    /// Whether a tab's board is parked.
    pub open spec fn holds(self, key: TabKey) -> bool {
        place_of(self.parked@, key) < self.parked@.len()
    }

    /// How many boards are resident besides the one on screen.
    pub fn len(&self) -> (count: usize)
        ensures
            count == self.parked@.len(),
    {
        self.parked.len()
    }

    pub fn is_empty(&self) -> (answer: bool)
        ensures
            answer == (self.parked@.len() == 0),
    {
        self.parked.len() == 0
    }

    /// Every parked board.
    pub fn iter(&self) -> (boards: &[Parked<E, C>])
        ensures
            boards@ == self.parked@,
    {
        self.parked.as_slice()
    }

    fn index_of(&self, key: TabKey) -> (at: usize)
        ensures
            at == place_of(self.parked@, key),
            at <= self.parked@.len(),
            at < self.parked@.len() ==> self.parked@[at as int].key == key,
    {
        let mut at: usize = 0;
        proof {
            assert(self.parked@.skip(0) =~= self.parked@);
        }
        while at < self.parked.len() && self.parked[at].key != key
            invariant
                at <= self.parked@.len(),
                place_of(self.parked@, key) == at + place_of(self.parked@.skip(at as int), key),
            decreases self.parked@.len() - at,
        {
            proof {
                assert(self.parked@.skip(at as int)[0] == self.parked@[at as int]);
                assert(self.parked@.skip(at as int).skip(1) =~= self.parked@.skip(
                    at as int + 1,
                ));
            }
            at = at + 1;
        }
        proof {
            if at < self.parked@.len() {
                assert(self.parked@.skip(at as int)[0] == self.parked@[at as int]);
            }
        }
        at
    }

    pub fn contains(&self, key: TabKey) -> (answer: bool)
        ensures
            answer == self.holds(key),
    {
        self.index_of(key) < self.parked.len()
    }

    /// Puts a board aside. One that is parked already is replaced: two live editors over one
    /// file is the failure worth refusing.
    pub fn park(&mut self, key: TabKey, path: String, editor: E, camera: C)
        requires
            old(self).well_formed(),
        ensures
            final(self).well_formed(),
            final(self).parked@ == (if old(self).holds(key) {
                old(self).parked@.update(
                    place_of(old(self).parked@, key),
                    Parked { key, path, editor, camera },
                )
            } else {
                old(self).parked@.push(Parked { key, path, editor, camera })
            }),
    {
        let at: usize = self.index_of(key);
        let board = Parked { key, path, editor, camera };
        proof {
            place_is_first(self.parked@, key);
        }
        if at < self.parked.len() {
            self.parked[at] = board;
        } else {
            self.parked.push(board);
        }
        proof {
            let was = old(self).parked@;
            let now = self.parked@;
            assert forall|i: int, j: int| 0 <= i < j < now.len() implies (
            #[trigger] now[i]).key != (#[trigger] now[j]).key by {
                if i < was.len() && j < was.len() {
                    assert(now[i].key == was[i].key && now[j].key == was[j].key);
                } else {
                    assert(now[i] == was[i]);
                    assert(was[i].key != key);
                }
            }
        }
    }

    /// Brings a board back, with the view it was left at. `None` if it is not resident.
    pub fn take(&mut self, key: TabKey) -> (board: Option<(E, C)>)
        requires
            old(self).well_formed(),
        ensures
            final(self).well_formed(),
            board is Some <==> old(self).holds(key),
            board is Some ==> {
                let at = place_of(old(self).parked@, key);
                &&& board->0 == (old(self).parked@[at].editor, old(self).parked@[at].camera)
                &&& final(self).parked@ == old(self).parked@.remove(at)
            },
            board is None ==> *final(self) == *old(self),
    {
        let at: usize = self.index_of(key);
        if at >= self.parked.len() {
            return None;
        }
        let board = self.parked.remove(at);
        proof {
            let was = old(self).parked@;
            let now = self.parked@;
            assert forall|i: int, j: int| 0 <= i < j < now.len() implies (
            #[trigger] now[i]).key != (#[trigger] now[j]).key by {
                let a = if i < at {
                    i
                } else {
                    i + 1
                };
                let b = if j < at {
                    j
                } else {
                    j + 1
                };
                assert(now[i] == was[a] && now[j] == was[b]);
            }
        }
        Some((board.editor, board.camera))
    }

    /// Drops every parked board whose tab is gone, and hands them back to be flushed before
    /// they are released. This is how memory stops growing.
    pub fn retain(&mut self, live: &Vec<TabKey>) -> (released: Vec<Parked<E, C>>)
        requires
            old(self).well_formed(),
        ensures
            final(self).parked@ == chosen(old(self).parked@, live@, true),
            released@ == chosen(old(self).parked@, live@, false),
            final(self).well_formed(),
    {
        let ghost all = self.parked@;
        let mut released: Vec<Parked<E, C>> = Vec::new();
        let mut at: usize = 0;
        let mut seen: Ghost<nat> = Ghost(0);
        proof {
            assert(all.skip(0) =~= all);
            assert(self.parked@.take(0) =~= chosen(all.take(0), live@, true));
            assert(released@ =~= chosen(all.take(0), live@, false));
        }
        while at < self.parked.len()
            invariant
                at <= self.parked@.len(),
                seen@ <= all.len(),
                all == old(self).parked@,
                self.parked@.len() - at == all.len() - seen@,
                self.parked@.take(at as int) == chosen(all.take(seen@ as int), live@, true),
                self.parked@.skip(at as int) == all.skip(seen@ as int),
                released@ == chosen(all.take(seen@ as int), live@, false),
            decreases self.parked@.len() - at,
        {
            let ghost list = self.parked@;
            proof {
                assert(list[at as int] == list.skip(at as int)[0]);
                assert(all[seen@ as int] == all.skip(seen@ as int)[0]);
                assert(all.take(seen@ as int + 1).drop_last() =~= all.take(seen@ as int));
                assert(all.skip(seen@ as int + 1) =~= all.skip(seen@ as int).skip(1));
            }
            if is_live(live, self.parked[at].key) {
                proof {
                    assert(list.take(at as int + 1) =~= list.take(at as int).push(
                        list[at as int],
                    ));
                    assert(list.skip(at as int + 1) =~= list.skip(at as int).skip(1));
                }
                at = at + 1;
            } else {
                released.push(self.parked.remove(at));
                proof {
                    let next = self.parked@;
                    assert(next.take(at as int) =~= list.take(at as int));
                    assert(next.skip(at as int) =~= list.skip(at as int).skip(1));
                }
            }
            seen = Ghost(seen@ + 1);
        }
        proof {
            assert(all.take(all.len() as int) =~= all);
            assert(self.parked@.take(at as int) =~= self.parked@);
            choosing_keeps_one_per_tab(all, live@, true);
        }
        released
    }

    /// Empties the session: every board comes back, so that every one can be flushed.
    pub fn drain(&mut self) -> (boards: Vec<Parked<E, C>>)
        ensures
            boards@ == old(self).parked@,
            final(self).parked@.len() == 0,
            final(self).well_formed(),
    {
        let mut boards: Vec<Parked<E, C>> = Vec::new();
        core::mem::swap(&mut boards, &mut self.parked);
        boards
    }
}

proof fn place_is_first<E, C>(parked: Seq<Parked<E, C>>, key: TabKey)
    ensures
        0 <= place_of(parked, key) <= parked.len(),
        place_of(parked, key) < parked.len() ==> parked[place_of(parked, key)].key == key,
        forall|k: int| 0 <= k < place_of(parked, key) ==> (#[trigger] parked[k]).key != key,
    decreases parked.len(),
{
    if parked.len() > 0 && parked[0].key != key {
        place_is_first(parked.skip(1), key);
        assert forall|k: int| 0 <= k < place_of(parked, key) implies (#[trigger] parked[k]).key
            != key by {
            if k > 0 {
                assert(parked[k] == parked.skip(1)[k - 1]);
            }
        }
    }
}

proof fn chosen_come_from<E, C>(
    parked: Seq<Parked<E, C>>,
    live: Seq<TabKey>,
    kept: bool,
    k: int,
) -> (i: int)
    requires
        0 <= k < chosen(parked, live, kept).len(),
    ensures
        0 <= i < parked.len(),
        parked[i] == chosen(parked, live, kept)[k],
        live.contains(parked[i].key) == kept,
    decreases parked.len(),
{
    let rest = chosen(parked.drop_last(), live, kept);
    if k < rest.len() {
        chosen_come_from(parked.drop_last(), live, kept, k)
    } else {
        parked.len() - 1
    }
}

proof fn choosing_keeps_one_per_tab<E, C>(
    parked: Seq<Parked<E, C>>,
    live: Seq<TabKey>,
    kept: bool,
)
    requires
        one_per_tab(parked),
    ensures
        one_per_tab(chosen(parked, live, kept)),
    decreases parked.len(),
{
    if parked.len() > 0 {
        let rest = parked.drop_last();
        assert(one_per_tab(rest)) by {
            assert forall|i: int, j: int| 0 <= i < j < rest.len() implies (
            #[trigger] rest[i]).key != (#[trigger] rest[j]).key by {
                assert(parked[i].key != parked[j].key);
            }
        }
        choosing_keeps_one_per_tab(rest, live, kept);
        let some = chosen(rest, live, kept);
        let all = chosen(parked, live, kept);
        assert forall|i: int, j: int| 0 <= i < j < all.len() implies (#[trigger] all[i]).key != (
        #[trigger] all[j]).key by {
            if j < some.len() {
                assert(all[i] == some[i] && all[j] == some[j]);
            } else {
                assert(all[i] == some[i]);
                let from = chosen_come_from(rest, live, kept, i);
                assert(parked[from].key != parked[parked.len() - 1].key);
            }
        }
    }
}

// ----- laws ----------------------------------------------------------------------------

/// The whole promise of a tab: what was parked comes back as it was left, and once it has
/// come back it is no longer parked.
pub proof fn a_parked_board_comes_back_as_it_was_left<E, C>(
    parked: Seq<Parked<E, C>>,
    board: Parked<E, C>,
)
    requires
        one_per_tab(parked),
        place_of(parked, board.key) >= parked.len(),
    ensures
        place_of(parked.push(board), board.key) == parked.len(),
        parked.push(board)[place_of(parked.push(board), board.key)] == board,
        parked.push(board).remove(place_of(parked.push(board), board.key)) == parked,
{
    place_is_first(parked, board.key);
    let after = parked.push(board);
    place_is_first(after, board.key);
    let at = place_of(after, board.key);
    assert(at == parked.len()) by {
        if at < parked.len() {
            assert(after[at] == parked[at]);
        }
        assert(after[parked.len() as int].key == board.key);
    }
    assert(after.remove(at) =~= parked);
}

/// Closing tabs loses no board and keeps none: every parked board is either still parked,
/// and then its tab is live, or handed back, and then its tab is gone.
pub proof fn every_board_is_kept_or_released<E, C>(parked: Seq<Parked<E, C>>, live: Seq<TabKey>)
    ensures
        chosen(parked, live, true).len() + chosen(parked, live, false).len() == parked.len(),
        forall|k: int|
            0 <= k < chosen(parked, live, true).len() ==> live.contains(
                (#[trigger] chosen(parked, live, true)[k]).key,
            ),
        forall|k: int|
            0 <= k < chosen(parked, live, false).len() ==> !live.contains(
                (#[trigger] chosen(parked, live, false)[k]).key,
            ),
    decreases parked.len(),
{
    if parked.len() > 0 {
        every_board_is_kept_or_released(parked.drop_last(), live);
    }
    assert forall|k: int| 0 <= k < chosen(parked, live, true).len() implies live.contains(
        (#[trigger] chosen(parked, live, true)[k]).key,
    ) by {
        let i = chosen_come_from(parked, live, true, k);
    }
    assert forall|k: int| 0 <= k < chosen(parked, live, false).len() implies !live.contains(
        (#[trigger] chosen(parked, live, false)[k]).key,
    ) by {
        let i = chosen_come_from(parked, live, false, k);
    }
}

/// Where a board is parked: at the first place of its tab, and nowhere where no place is.
pub proof fn a_board_is_parked_at_its_tab<E, C>(parked: Seq<Parked<E, C>>, key: TabKey, at: int)
    requires
        0 <= at <= parked.len(),
        forall|k: int| 0 <= k < at ==> (#[trigger] parked[k]).key != key,
        at < parked.len() ==> parked[at].key == key,
    ensures
        place_of(parked, key) == at,
{
    place_is_first(parked, key);
    if place_of(parked, key) < at {
        assert(parked[place_of(parked, key)].key != key);
    }
}

/// The boards that stay are those whose tab is live, and those handed back the others, each in
/// the order they were parked.
pub proof fn boards_stay_with_their_tabs<E, C>(parked: Seq<Parked<E, C>>, live: Seq<TabKey>)
    ensures
        chosen(parked, live, true) == parked.filter(
            |board: Parked<E, C>| live.contains(board.key),
        ),
        chosen(parked, live, false) == parked.filter(
            |board: Parked<E, C>| !live.contains(board.key),
        ),
    decreases parked.len(),
{
    reveal(Seq::filter);
    if parked.len() > 0 {
        boards_stay_with_their_tabs(parked.drop_last(), live);
    }
}

} // verus!
