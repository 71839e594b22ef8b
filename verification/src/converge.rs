//! The order of the work that brings the library directory to the desired state.
//!
//! A run hands out one action at a time: delete a stale file, fetch a track
//! into the cache, write its tags, copy it into the library, clear the cache.
//! The caller performs the action and reports whether it succeeded; the run
//! answers with the next action. What the run decides is written down once, as
//! a function from state and outcome to state, and the executable run is
//! proved to follow it.

use crate::diff::{file_names, lemma_diff_is_the_difference, missing, stale, Diff};
use crate::names::{file_name, track_filename};
use crate::query::{get_query, search_query};
use crate::track::{Track, TrackView};
use vstd::prelude::*;

verus! {

/// The three steps that bring one track into the library.
#[derive(Debug, Clone, Copy, PartialEq, Eq, Structural)]
pub enum Stage {
    /// The fetch into the cache.
    Acquire,
    /// The writing of the tags.
    Tag,
    /// The copy into the library.
    Promote,
}

/// How far one track to be added has come. A track moves forward only, and
/// `Promoted` and `Failed` are where it ends.
#[derive(Debug, Clone, Copy, PartialEq, Eq, Structural)]
pub enum ItemState {
    /// Not begun.
    Pending,
    /// The fetch into the cache is under way.
    Acquiring,
    /// The file is in the cache.
    Acquired,
    /// The tags are being written to the file in the cache.
    Tagging,
    /// The file in the cache has its tags, and is on its way into the library.
    Tagged,
    /// The file is in the library.
    Promoted,
    /// The named step failed; the track was left at that.
    Failed(Stage),
}

/// What became of one file to be removed.
#[derive(Debug, Clone, Copy, PartialEq, Eq, Structural)]
pub enum Removal {
    /// Not deleted, and no attempt made.
    Pending,
    /// Deleted.
    Removed,
    /// The attempt to delete it failed.
    Failed,
}

/// The part of a run. The parts follow each other in this order; a run may
/// begin with any but the last.
#[derive(Debug, Clone, Copy, PartialEq, Eq, Structural)]
pub enum Phase {
    /// Stale files are deleted.
    Removing,
    /// Tracks are fetched, tagged and promoted, one after the other.
    Adding,
    /// The cache is cleared.
    Clearing,
    /// Nothing is left to do.
    Finished,
}

/// What the caller is to do next. Files are named without a directory: a file
/// to delete lies in the library, a file to fetch or to tag in the cache, and
/// a file to promote goes from the cache to the library under one name.
#[derive(Debug)]
pub enum Action {
    /// Delete `file` from the library.
    Delete { file: String },
    /// Fetch what the search finds for `query` into the cache, as `file`.
    Acquire { query: String, file: String },
    /// Write title and artist of `track` into the tags of `file` in the cache.
    Tag { file: String, track: Track },
    /// Copy `file` from the cache into the library.
    Promote { file: String },
    /// Remove the cache with all that is in it.
    ClearCache,
    /// Stop: the run is finished.
    Finish,
}

/// An action as the contracts see it.
pub enum ActionView {
    Delete { file: Seq<char> },
    Acquire { query: Seq<char>, file: Seq<char> },
    Tag { file: Seq<char>, track: TrackView },
    Promote { file: Seq<char> },
    ClearCache,
    Finish,
}

impl View for Action {
    type V = ActionView;

    open spec fn view(&self) -> ActionView {
        match *self {
            Action::Delete { file } => ActionView::Delete { file: file@ },
            Action::Acquire { query, file } => ActionView::Acquire { query: query@, file: file@ },
            Action::Tag { file, track } => ActionView::Tag { file: file@, track: track@ },
            Action::Promote { file } => ActionView::Promote { file: file@ },
            Action::ClearCache => ActionView::ClearCache,
            Action::Finish => ActionView::Finish,
        }
    }
}

/// Whether a track has ended, in the library or in failure.
pub open spec fn terminal(state: ItemState) -> bool {
    state == ItemState::Promoted || state is Failed
}

/// Whether a track waits for the outcome of an action.
pub open spec fn waiting(state: ItemState) -> bool {
    state == ItemState::Acquiring || state == ItemState::Tagging || state == ItemState::Tagged
}

/// The state of a track once the action it waited for has ended.
pub open spec fn settled(state: ItemState, ok: bool) -> ItemState {
    match state {
        ItemState::Acquiring => if ok {
            ItemState::Acquired
        } else {
            ItemState::Failed(Stage::Acquire)
        },
        ItemState::Tagging => if ok {
            ItemState::Tagged
        } else {
            ItemState::Failed(Stage::Tag)
        },
        ItemState::Tagged => if ok {
            ItemState::Promoted
        } else {
            ItemState::Failed(Stage::Promote)
        },
        other => other,
    }
}

/// The state in which a track waits once its next action is handed out.
pub open spec fn launched(state: ItemState) -> ItemState {
    match state {
        ItemState::Pending => ItemState::Acquiring,
        ItemState::Acquired => ItemState::Tagging,
        other => other,
    }
}

impl ItemState {
    /// Whether the track has ended.
    pub fn is_terminal(self) -> (ended: bool)
        ensures
            ended == terminal(self),
    {
        match self {
            ItemState::Promoted => true,
            ItemState::Failed(_) => true,
            _ => false,
        }
    }

    /// The state after the action that the track waited for has ended.
    pub fn settle(self, ok: bool) -> (next: ItemState)
        ensures
            next == settled(self, ok),
    {
        match self {
            ItemState::Acquiring => if ok {
                ItemState::Acquired
            } else {
                ItemState::Failed(Stage::Acquire)
            },
            ItemState::Tagging => if ok {
                ItemState::Tagged
            } else {
                ItemState::Failed(Stage::Tag)
            },
            ItemState::Tagged => if ok {
                ItemState::Promoted
            } else {
                ItemState::Failed(Stage::Promote)
            },
            other => other,
        }
    }

    /// The state in which the track waits for its next action.
    pub fn launch(self) -> (next: ItemState)
        ensures
            next == launched(self),
    {
        match self {
            ItemState::Pending => ItemState::Acquiring,
            ItemState::Acquired => ItemState::Tagging,
            other => other,
        }
    }
}

/// A run as the contracts see it.
pub struct RunView {
    /// The files to remove.
    pub remove: Seq<Seq<char>>,
    /// The tracks to add.
    pub add: Seq<TrackView>,
    /// Whether stale files are left in place.
    pub keep_all: bool,
    /// What became of each file to remove.
    pub removals: Seq<Removal>,
    /// How far each track to add has come.
    pub items: Seq<ItemState>,
    pub phase: Phase,
    /// The place of the file or track that the run is at.
    pub cursor: int,
}

impl RunView {
    /// What holds of every run: files are deleted from the first on, before any
    /// track is begun, and not at all where stale files are kept; tracks are
    /// worked on one at a time, from the first on.
    pub open spec fn wf(self) -> bool {
        &&& self.removals.len() == self.remove.len()
        &&& self.items.len() == self.add.len()
        &&& self.keep_all ==> self.phase != Phase::Removing
        &&& forall|i: int|
            0 <= i < self.removals.len() ==> ((#[trigger] self.removals[i]) == Removal::Pending
                <==> self.keep_all || (self.phase == Phase::Removing && i >= self.cursor))
        &&& match self.phase {
            Phase::Removing => {
                &&& 0 <= self.cursor < self.remove.len()
                &&& forall|i: int|
                    0 <= i < self.items.len() ==> (#[trigger] self.items[i]) == ItemState::Pending
            },
            Phase::Adding => {
                &&& 0 <= self.cursor < self.add.len()
                &&& waiting(self.items[self.cursor])
                &&& forall|i: int| 0 <= i < self.cursor ==> terminal(#[trigger] self.items[i])
                &&& forall|i: int|
                    self.cursor < i < self.items.len() ==> (#[trigger] self.items[i])
                        == ItemState::Pending
            },
            _ => {
                &&& self.cursor == 0
                &&& forall|i: int| 0 <= i < self.items.len() ==> terminal(#[trigger] self.items[i])
            },
        }
    }

    /// The run as it turns to the tracks: the first is begun, or the cache is
    /// cleared where there is none.
    pub open spec fn begin_adding(self) -> RunView {
        if self.add.len() > 0 {
            RunView {
                phase: Phase::Adding,
                cursor: 0,
                items: self.items.update(0, launched(ItemState::Pending)),
                ..self
            }
        } else {
            RunView { phase: Phase::Clearing, cursor: 0, ..self }
        }
    }

    /// The action that the run waits for.
    pub open spec fn action(self) -> ActionView {
        match self.phase {
            Phase::Removing => ActionView::Delete { file: self.remove[self.cursor] },
            Phase::Adding => {
                let track = self.add[self.cursor];
                match self.items[self.cursor] {
                    ItemState::Acquiring => ActionView::Acquire {
                        query: search_query(track),
                        file: file_name(track),
                    },
                    ItemState::Tagging => ActionView::Tag { file: file_name(track), track },
                    _ => ActionView::Promote { file: file_name(track) },
                }
            },
            Phase::Clearing => ActionView::ClearCache,
            Phase::Finished => ActionView::Finish,
        }
    }

    /// The run after the action it waited for has ended, well (`ok`) or not.
    /// A failure ends the file or the track it befell and nothing else: the
    /// run goes on with the next.
    pub open spec fn step(self, ok: bool) -> RunView {
        match self.phase {
            Phase::Removing => {
                let removals = self.removals.update(
                    self.cursor,
                    if ok {
                        Removal::Removed
                    } else {
                        Removal::Failed
                    },
                );
                if self.cursor + 1 < self.remove.len() {
                    RunView { removals, cursor: self.cursor + 1, ..self }
                } else {
                    (RunView { removals, ..self }).begin_adding()
                }
            },
            Phase::Adding => {
                let state = settled(self.items[self.cursor], ok);
                if !terminal(state) {
                    RunView { items: self.items.update(self.cursor, launched(state)), ..self }
                } else if self.cursor + 1 < self.add.len() {
                    RunView {
                        items: self.items.update(self.cursor, state).update(
                            self.cursor + 1,
                            launched(ItemState::Pending),
                        ),
                        cursor: self.cursor + 1,
                        ..self
                    }
                } else {
                    RunView {
                        items: self.items.update(self.cursor, state),
                        phase: Phase::Clearing,
                        cursor: 0,
                        ..self
                    }
                }
            },
            Phase::Clearing => RunView { phase: Phase::Finished, ..self },
            Phase::Finished => self,
        }
    }
}

/// The run at its start: nothing deleted, no track begun. It waits for the
/// first deletion, or, where stale files are kept or there are none, for the
/// first track.
pub open spec fn start(remove: Seq<Seq<char>>, add: Seq<TrackView>, keep_all: bool) -> RunView {
    let idle = RunView {
        remove,
        add,
        keep_all,
        removals: Seq::new(remove.len(), |i: int| Removal::Pending),
        items: Seq::new(add.len(), |i: int| ItemState::Pending),
        phase: Phase::Removing,
        cursor: 0,
    };
    if !keep_all && remove.len() > 0 {
        idle
    } else {
        idle.begin_adding()
    }
}

/// One run of the convergence, from a diff to the cleared cache.
pub struct Run {
    remove: Vec<String>,
    add: Vec<Track>,
    keep_all: bool,
    removals: Vec<Removal>,
    items: Vec<ItemState>,
    phase: Phase,
    cursor: usize,
}

impl View for Run {
    type V = RunView;

    closed spec fn view(&self) -> RunView {
        RunView {
            remove: self.remove.deep_view(),
            add: self.add.deep_view(),
            keep_all: self.keep_all,
            removals: self.removals@,
            items: self.items@,
            phase: self.phase,
            cursor: self.cursor as int,
        }
    }
}

/// As many entries as `n`, each `Pending`.
fn pending_removals(n: usize) -> (all: Vec<Removal>)
    ensures
        all@ == Seq::new(n as nat, |i: int| Removal::Pending),
{
    let mut all: Vec<Removal> = Vec::new();
    while all.len() < n
        invariant
            all.len() <= n,
            forall|i: int| 0 <= i < all.len() ==> all[i] == Removal::Pending,
        decreases n - all.len(),
    {
        all.push(Removal::Pending);
    }
    assert(all@ =~= Seq::new(n as nat, |i: int| Removal::Pending));
    all
}

/// As many entries as `n`, each `Pending`.
fn pending_items(n: usize) -> (all: Vec<ItemState>)
    ensures
        all@ == Seq::new(n as nat, |i: int| ItemState::Pending),
{
    let mut all: Vec<ItemState> = Vec::new();
    while all.len() < n
        invariant
            all.len() <= n,
            forall|i: int| 0 <= i < all.len() ==> all[i] == ItemState::Pending,
        decreases n - all.len(),
    {
        all.push(ItemState::Pending);
    }
    assert(all@ =~= Seq::new(n as nat, |i: int| ItemState::Pending));
    all
}

impl Run {
    #[verifier::type_invariant]
    spec fn inv(&self) -> bool {
        self@.wf()
    }

    /// A run for `diff`. With `keep_all` no file is deleted.
    pub fn new(diff: Diff, keep_all: bool) -> (run: Run)
        ensures
            run@ == start(diff.remove.deep_view(), diff.add.deep_view(), keep_all),
            run@.wf(),
    {
        let Diff { add, remove } = diff;
        let removals = pending_removals(remove.len());
        let mut items = pending_items(add.len());
        if !keep_all && remove.len() > 0 {
            Run { remove, add, keep_all, removals, items, phase: Phase::Removing, cursor: 0 }
        } else if add.len() > 0 {
            items.set(0, ItemState::Pending.launch());
            Run { remove, add, keep_all, removals, items, phase: Phase::Adding, cursor: 0 }
        } else {
            Run { remove, add, keep_all, removals, items, phase: Phase::Clearing, cursor: 0 }
        }
    }

    /// The action that the run waits for. A finished run waits for none.
    pub fn action(&self) -> (action: Action)
        ensures
            action@ == self@.action(),
    {
        proof {
            use_type_invariant(self);
        }
        match self.phase {
            Phase::Removing => Action::Delete { file: self.remove[self.cursor].clone() },
            Phase::Adding => {
                let track = &self.add[self.cursor];
                match self.items[self.cursor] {
                    ItemState::Acquiring => Action::Acquire {
                        query: get_query(track),
                        file: track_filename(track),
                    },
                    ItemState::Tagging => Action::Tag {
                        file: track_filename(track),
                        track: track.clone(),
                    },
                    _ => Action::Promote { file: track_filename(track) },
                }
            },
            Phase::Clearing => Action::ClearCache,
            Phase::Finished => Action::Finish,
        }
    }

    /// Takes the outcome of the action that the run waited for, and moves on.
    pub fn advance(self, ok: bool) -> (next: Run)
        ensures
            next@ == self@.step(ok),
            next@.wf(),
    {
        proof {
            use_type_invariant(&self);
        }
        let ghost before = self@;
        let Run { remove, add, keep_all, removals, items, phase, cursor } = self;
        assert(before.wf());
        assert(before.remove.len() == remove.len() && before.add.len() == add.len());
        let mut removals = removals;
        let mut items = items;
        match phase {
            Phase::Removing => {
                removals.set(
                    cursor,
                    if ok {
                        Removal::Removed
                    } else {
                        Removal::Failed
                    },
                );
                if cursor + 1 < remove.len() {
                    Run { remove, add, keep_all, removals, items, phase, cursor: cursor + 1 }
                } else if add.len() > 0 {
                    items.set(0, ItemState::Pending.launch());
                    Run { remove, add, keep_all, removals, items, phase: Phase::Adding, cursor: 0 }
                } else {
                    Run {
                        remove,
                        add,
                        keep_all,
                        removals,
                        items,
                        phase: Phase::Clearing,
                        cursor: 0,
                    }
                }
            },
            Phase::Adding => {
                let state = items[cursor].settle(ok);
                if !state.is_terminal() {
                    items.set(cursor, state.launch());
                    Run { remove, add, keep_all, removals, items, phase, cursor }
                } else if cursor + 1 < add.len() {
                    items.set(cursor, state);
                    items.set(cursor + 1, ItemState::Pending.launch());
                    Run { remove, add, keep_all, removals, items, phase, cursor: cursor + 1 }
                } else {
                    items.set(cursor, state);
                    Run {
                        remove,
                        add,
                        keep_all,
                        removals,
                        items,
                        phase: Phase::Clearing,
                        cursor: 0,
                    }
                }
            },
            Phase::Clearing => Run {
                remove,
                add,
                keep_all,
                removals,
                items,
                phase: Phase::Finished,
                cursor,
            },
            Phase::Finished => Run { remove, add, keep_all, removals, items, phase, cursor },
        }
    }

    /// The part of the run.
    pub fn phase(&self) -> (phase: Phase)
        ensures
            phase == self@.phase,
    {
        self.phase
    }

    /// The place, in its list of the diff, of the file or track that the run
    /// is at.
    pub fn cursor(&self) -> (cursor: usize)
        ensures
            cursor == self@.cursor,
    {
        self.cursor
    }

    /// How far the track at `place` of the tracks to add has come.
    pub fn state_of(&self, place: usize) -> (state: Option<ItemState>)
        ensures
            state == if place < self@.items.len() {
                Some(self@.items[place as int])
            } else {
                None
            },
    {
        if place < self.items.len() {
            Some(self.items[place])
        } else {
            None
        }
    }

    /// What became of the file at `place` of the files to remove.
    pub fn removal_of(&self, place: usize) -> (removal: Option<Removal>)
        ensures
            removal == if place < self@.removals.len() {
                Some(self@.removals[place as int])
            } else {
                None
            },
    {
        if place < self.removals.len() {
            Some(self.removals[place])
        } else {
            None
        }
    }
}

/// How the actions of a run end: the places, in the diff, of the files whose
/// deletion succeeds, and of the tracks whose fetch, whose tagging and whose
/// promotion succeeds.
pub struct Outcomes {
    pub deleted: Set<int>,
    pub acquired: Set<int>,
    pub tagged: Set<int>,
    pub promoted: Set<int>,
}

impl Outcomes {
    /// How the action ends that `run` waits for.
    pub open spec fn of(self, run: RunView) -> bool {
        match run.phase {
            Phase::Removing => self.deleted.contains(run.cursor),
            Phase::Adding => match run.items[run.cursor] {
                ItemState::Acquiring => self.acquired.contains(run.cursor),
                ItemState::Tagging => self.tagged.contains(run.cursor),
                _ => self.promoted.contains(run.cursor),
            },
            _ => true,
        }
    }

    /// Where the track at place `i` ends: at the first of its steps that
    /// fails, or in the library.
    pub open spec fn verdict(self, i: int) -> ItemState {
        if !self.acquired.contains(i) {
            ItemState::Failed(Stage::Acquire)
        } else if !self.tagged.contains(i) {
            ItemState::Failed(Stage::Tag)
        } else if !self.promoted.contains(i) {
            ItemState::Failed(Stage::Promote)
        } else {
            ItemState::Promoted
        }
    }

    /// What becomes of the file at place `i` once its deletion is tried.
    pub open spec fn removal(self, i: int) -> Removal {
        if self.deleted.contains(i) {
            Removal::Removed
        } else {
            Removal::Failed
        }
    }
}

impl RunView {
    /// The run `n` actions later, each ending as `outcomes` says.
    pub open spec fn after(self, outcomes: Outcomes, n: nat) -> RunView
        decreases n,
    {
        if n == 0 {
            self
        } else {
            self.step(outcomes.of(self)).after(outcomes, (n - 1) as nat)
        }
    }

    /// The most actions that the run still hands out before it is finished.
    pub open spec fn steps_left(self) -> nat {
        match self.phase {
            Phase::Removing => (self.remove.len() - self.cursor + 3 * self.add.len() + 1) as nat,
            Phase::Adding => {
                let mine: int = match self.items[self.cursor] {
                    ItemState::Acquiring => 3,
                    ItemState::Tagging => 2,
                    _ => 1,
                };
                (3 * (self.add.len() - self.cursor - 1) + mine + 1) as nat
            },
            Phase::Clearing => 1,
            Phase::Finished => 0,
        }
    }

    /// Whether the run is where `outcomes` leads: what is settled is settled
    /// as they say, and the track under way has come as far as they allow.
    pub open spec fn follows(self, outcomes: Outcomes) -> bool {
        &&& self.wf()
        &&& forall|i: int|
            0 <= i < self.removals.len() && (#[trigger] self.removals[i]) != Removal::Pending
                ==> self.removals[i] == outcomes.removal(i)
        &&& forall|i: int|
            0 <= i < self.items.len() && terminal(#[trigger] self.items[i]) ==> self.items[i]
                == outcomes.verdict(i)
        &&& self.phase == Phase::Adding ==> match self.items[self.cursor] {
            ItemState::Tagging => outcomes.acquired.contains(self.cursor),
            ItemState::Tagged => outcomes.acquired.contains(self.cursor)
                && outcomes.tagged.contains(self.cursor),
            _ => true,
        }
    }

    /// Whether the file was deleted in this run.
    pub open spec fn deleted(self, file: Seq<char>) -> bool {
        exists|i: int|
            0 <= i < self.remove.len() && self.remove[i] == file && (#[trigger] self.removals[i])
                == Removal::Removed
    }

    /// Whether the file was put into the library in this run.
    pub open spec fn promoted(self, file: Seq<char>) -> bool {
        exists|i: int|
            0 <= i < self.add.len() && file_name(self.add[i]) == file && (#[trigger] self.items[i])
                == ItemState::Promoted
    }
}

/// The names of the files in the library directory after what `run` has done,
/// where the directory held `listing` at the start: the files that were not
/// deleted, and those of the promoted tracks.
pub open spec fn library(listing: Set<Seq<char>>, run: RunView) -> Set<Seq<char>> {
    Set::new(|file: Seq<char>| (listing.contains(file) && !run.deleted(file)) || run.promoted(file))
}

/// The run at its end, where its actions end as `outcomes` says.
pub open spec fn run_to_end(
    remove: Seq<Seq<char>>,
    add: Seq<TrackView>,
    keep_all: bool,
    outcomes: Outcomes,
) -> RunView {
    let run = start(remove, add, keep_all);
    run.after(outcomes, run.steps_left())
}

/// A run begins well-formed, and where any outcomes lead.
proof fn lemma_start_follows(
    remove: Seq<Seq<char>>,
    add: Seq<TrackView>,
    keep_all: bool,
    outcomes: Outcomes,
)
    ensures
        start(remove, add, keep_all).follows(outcomes),
        start(remove, add, keep_all).remove == remove,
        start(remove, add, keep_all).add == add,
        start(remove, add, keep_all).keep_all == keep_all,
{
}

/// One action on, a run is still where the outcomes lead, with what it works
/// on unchanged and fewer actions left.
proof fn lemma_step_follows(run: RunView, outcomes: Outcomes)
    requires
        run.follows(outcomes),
    ensures
        run.step(outcomes.of(run)).follows(outcomes),
        run.step(outcomes.of(run)).remove == run.remove,
        run.step(outcomes.of(run)).add == run.add,
        run.step(outcomes.of(run)).keep_all == run.keep_all,
        run.phase != Phase::Finished ==> run.step(outcomes.of(run)).steps_left() < run.steps_left(),
        run.phase == Phase::Finished ==> run.step(outcomes.of(run)) == run,
{
}

/// Any number of actions on, a run is still where the outcomes lead.
proof fn lemma_after_follows(run: RunView, outcomes: Outcomes, n: nat)
    requires
        run.follows(outcomes),
    ensures
        run.after(outcomes, n).follows(outcomes),
        run.after(outcomes, n).remove == run.remove,
        run.after(outcomes, n).add == run.add,
        run.after(outcomes, n).keep_all == run.keep_all,
        n >= run.steps_left() ==> run.after(outcomes, n).phase == Phase::Finished,
    decreases n,
{
    if n > 0 {
        lemma_step_follows(run, outcomes);
        lemma_after_follows(run.step(outcomes.of(run)), outcomes, (n - 1) as nat);
    }
}

/// Whatever the outcomes, a run comes to its end, and no failure holds it up
/// or reaches beyond the file or track it befell: every file to remove was
/// tried (or none, where stale files are kept), and every track ended where
/// its own three steps led it.
pub proof fn lemma_every_run_ends(
    remove: Seq<Seq<char>>,
    add: Seq<TrackView>,
    keep_all: bool,
    outcomes: Outcomes,
)
    ensures
        ({
            let end = run_to_end(remove, add, keep_all, outcomes);
            &&& end.phase == Phase::Finished
            &&& end.wf()
            &&& end.remove == remove
            &&& end.add == add
            &&& forall|i: int|
                0 <= i < add.len() ==> (#[trigger] end.items[i]) == outcomes.verdict(i)
            &&& forall|i: int|
                0 <= i < remove.len() ==> (#[trigger] end.removals[i]) == if keep_all {
                    Removal::Pending
                } else {
                    outcomes.removal(i)
                }
        }),
{
    let run = start(remove, add, keep_all);
    lemma_start_follows(remove, add, keep_all, outcomes);
    lemma_after_follows(run, outcomes, run.steps_left());
}

/// How far a state lies along the way of a track.
pub open spec fn progress(state: ItemState) -> nat {
    match state {
        ItemState::Pending => 0,
        ItemState::Acquiring => 1,
        ItemState::Acquired => 2,
        ItemState::Tagging => 3,
        ItemState::Tagged => 4,
        ItemState::Promoted => 5,
        ItemState::Failed(_) => 5,
    }
}

/// Tracks move forward only. An action's outcome changes nothing about the
/// files to work on, takes no track back to an earlier state, leaves every
/// track that has ended as it ended, and touches no track before the one the
/// run is at.
pub proof fn lemma_tracks_only_move_forward(run: RunView, ok: bool)
    requires
        run.wf(),
    ensures
        run.step(ok).wf(),
        run.step(ok).remove == run.remove,
        run.step(ok).add == run.add,
        forall|i: int|
            0 <= i < run.items.len() ==> progress(#[trigger] run.step(ok).items[i]) >= progress(
                run.items[i],
            ),
        forall|i: int|
            0 <= i < run.items.len() && terminal(run.items[i]) ==> (#[trigger] run.step(
                ok,
            ).items[i]) == run.items[i],
        forall|i: int|
            0 <= i < run.removals.len() && run.removals[i] != Removal::Pending ==> (
            #[trigger] run.step(ok).removals[i]) == run.removals[i],
{
}

/// One failure stays with its track. Where the fetch of the track at place `k`
/// fails and every step of every other track succeeds, each other track ends
/// promoted with its file in the library, and the track at `k` ends as failed
/// at the fetch, with no file of its name in the library. This is stated of
/// tracks with file names of their own that the library did not hold, as
/// every diff has them.
pub proof fn lemma_failure_is_isolated(
    listing: Set<Seq<char>>,
    remove: Seq<Seq<char>>,
    add: Seq<TrackView>,
    keep_all: bool,
    outcomes: Outcomes,
    k: int,
)
    requires
        0 <= k < add.len(),
        !outcomes.acquired.contains(k),
        forall|i: int|
            0 <= i < add.len() && i != k ==> outcomes.acquired.contains(i)
                && outcomes.tagged.contains(i) && outcomes.promoted.contains(i),
        file_names(add).no_duplicates(),
        forall|i: int| 0 <= i < add.len() ==> !listing.contains(#[trigger] file_names(add)[i]),
    ensures
        ({
            let end = run_to_end(remove, add, keep_all, outcomes);
            &&& end.phase == Phase::Finished
            &&& end.items[k] == ItemState::Failed(Stage::Acquire)
            &&& !library(listing, end).contains(file_name(add[k]))
            &&& forall|i: int|
                0 <= i < add.len() && i != k ==> (#[trigger] end.items[i]) == ItemState::Promoted
                    && library(listing, end).contains(file_name(add[i]))
        }),
{
    lemma_every_run_ends(remove, add, keep_all, outcomes);
    let end = run_to_end(remove, add, keep_all, outcomes);
    assert(!listing.contains(file_names(add)[k]));
    assert(!end.promoted(file_name(add[k]))) by {
        if end.promoted(file_name(add[k])) {
            let i = choose|i: int|
                0 <= i < end.add.len() && file_name(end.add[i]) == file_name(add[k]) && (
                #[trigger] end.items[i]) == ItemState::Promoted;
            assert(file_names(add)[i] == file_names(add)[k]);
        }
    }
    assert forall|i: int| 0 <= i < add.len() && i != k implies (#[trigger] end.items[i])
        == ItemState::Promoted && library(listing, end).contains(file_name(add[i])) by {
        assert(end.promoted(file_name(add[i])));
    }
}

/// No file comes into the library before its tags are written. At every
/// moment of a run: a track is promoted only after its fetch and its tagging
/// succeeded; the run asks for a promotion only of the track it is at, with
/// that track tagged; and every file in the library was there at the start or
/// is the file of a track whose tagging succeeded.
pub proof fn lemma_tagged_before_promoted(
    listing: Set<Seq<char>>,
    remove: Seq<Seq<char>>,
    add: Seq<TrackView>,
    keep_all: bool,
    outcomes: Outcomes,
    n: nat,
)
    ensures
        ({
            let run = start(remove, add, keep_all).after(outcomes, n);
            &&& forall|i: int|
                0 <= i < add.len() && (#[trigger] run.items[i]) == ItemState::Promoted
                    ==> outcomes.acquired.contains(i) && outcomes.tagged.contains(i)
            &&& run.action() is Promote ==> run.items[run.cursor] == ItemState::Tagged
                && outcomes.acquired.contains(run.cursor) && outcomes.tagged.contains(run.cursor)
            &&& forall|file: Seq<char>| #[trigger]
                library(listing, run).contains(file) ==> listing.contains(file) || exists|i: int|
                    0 <= i < add.len() && #[trigger] file_name(add[i]) == file
                        && outcomes.tagged.contains(i)
        }),
{
    let run = start(remove, add, keep_all).after(outcomes, n);
    lemma_start_follows(remove, add, keep_all, outcomes);
    lemma_after_follows(start(remove, add, keep_all), outcomes, n);
    assert forall|file: Seq<char>| #[trigger] library(listing, run).contains(file) implies (
    listing.contains(file) || exists|i: int|
        0 <= i < add.len() && #[trigger] file_name(add[i]) == file && outcomes.tagged.contains(
            i,
        )) by {
        if run.promoted(file) {
            let i = choose|i: int|
                0 <= i < run.add.len() && file_name(run.add[i]) == file && (#[trigger] run.items[i])
                    == ItemState::Promoted;
            assert(file_name(add[i]) == file && outcomes.tagged.contains(i));
        }
    }
}

/// Where stale files are kept, a run deletes nothing: at every moment it asks
/// for no deletion, and every file that the library held at the start is
/// still there.
pub proof fn lemma_kept_files_stay(
    listing: Set<Seq<char>>,
    remove: Seq<Seq<char>>,
    add: Seq<TrackView>,
    outcomes: Outcomes,
    n: nat,
)
    ensures
        ({
            let run = start(remove, add, true).after(outcomes, n);
            &&& !(run.action() is Delete)
            &&& forall|file: Seq<char>|
                listing.contains(file) ==> #[trigger] library(listing, run).contains(file)
        }),
{
    lemma_start_follows(remove, add, true, outcomes);
    lemma_after_follows(start(remove, add, true), outcomes, n);
}

/// After a run that met failures, the next diff asks for what failed and for
/// nothing else. Where the diff of a listing and the desired tracks is run
/// with removal, the diff of the library as it then is and the same tracks
/// adds the tracks that did not end promoted, and removes the stale files of
/// which no deletion succeeded.
pub proof fn lemma_second_run_retries_what_failed(
    listing: Seq<Seq<char>>,
    tracks: Seq<TrackView>,
    outcomes: Outcomes,
    later: Seq<Seq<char>>,
)
    requires
        later.to_set() == library(
            listing.to_set(),
            run_to_end(stale(listing, tracks), missing(listing, tracks), false, outcomes),
        ),
    ensures
        forall|name: Seq<char>| #[trigger]
            file_names(missing(later, tracks)).contains(name) <==> exists|i: int|
                0 <= i < missing(listing, tracks).len() && #[trigger] file_names(
                    missing(listing, tracks),
                )[i] == name && outcomes.verdict(i) != ItemState::Promoted,
        forall|file: Seq<char>| #[trigger]
            stale(later, tracks).contains(file) <==> stale(listing, tracks).contains(file) && !(
            exists|i: int|
                0 <= i < stale(listing, tracks).len() && #[trigger] stale(listing, tracks)[i]
                    == file && outcomes.deleted.contains(i)),
{
    broadcast use vstd::seq_lib::group_seq_properties;

    let remove = stale(listing, tracks);
    let add = missing(listing, tracks);
    let end = run_to_end(remove, add, false, outcomes);
    lemma_every_run_ends(remove, add, false, outcomes);
    lemma_diff_is_the_difference(listing, tracks);
    lemma_diff_is_the_difference(later, tracks);
    assert forall|file: Seq<char>| later.contains(file) <==> #[trigger] library(
        listing.to_set(),
        end,
    ).contains(file) by {
        assert(later.to_set().contains(file) <==> later.contains(file));
    }
    assert forall|name: Seq<char>| #[trigger]
        file_names(missing(later, tracks)).contains(name) <==> exists|i: int|
            0 <= i < add.len() && #[trigger] file_names(add)[i] == name && outcomes.verdict(i)
                != ItemState::Promoted by {
        let failed = exists|i: int|
            0 <= i < add.len() && #[trigger] file_names(add)[i] == name && outcomes.verdict(i)
                != ItemState::Promoted;
        if file_names(tracks).contains(name) {
            if listing.contains(name) {
                assert(!file_names(add).contains(name));
                if end.deleted(name) {
                    let i = choose|i: int|
                        0 <= i < end.remove.len() && end.remove[i] == name && (
                        #[trigger] end.removals[i]) == Removal::Removed;
                    assert(remove.contains(name));
                }
                assert(library(listing.to_set(), end).contains(name));
                assert(!failed);
            } else {
                assert(file_names(add).contains(name));
                let i = choose|i: int| 0 <= i < file_names(add).len() && file_names(add)[i] == name;
                assert(end.items[i] == outcomes.verdict(i));
                if outcomes.verdict(i) == ItemState::Promoted {
                    assert(end.promoted(name));
                    assert(library(listing.to_set(), end).contains(name));
                    if failed {
                        let j = choose|j: int|
                            0 <= j < add.len() && #[trigger] file_names(add)[j] == name
                                && outcomes.verdict(j) != ItemState::Promoted;
                        assert(i == j);
                    }
                } else {
                    if end.promoted(name) {
                        let j = choose|j: int|
                            0 <= j < end.add.len() && file_name(end.add[j]) == name && (
                            #[trigger] end.items[j]) == ItemState::Promoted;
                        assert(file_names(add)[j] == name);
                        assert(i == j);
                    }
                    assert(!library(listing.to_set(), end).contains(name));
                    assert(failed);
                }
            }
        } else {
            if failed {
                let j = choose|j: int|
                    0 <= j < add.len() && #[trigger] file_names(add)[j] == name && outcomes.verdict(
                        j,
                    ) != ItemState::Promoted;
                assert(file_names(add).contains(name));
            }
        }
    }
    assert forall|file: Seq<char>| #[trigger]
        stale(later, tracks).contains(file) <==> remove.contains(file) && !(exists|i: int|
            0 <= i < remove.len() && #[trigger] remove[i] == file && outcomes.deleted.contains(
                i,
            )) by {
        let gone = exists|i: int|
            0 <= i < remove.len() && #[trigger] remove[i] == file && outcomes.deleted.contains(i);
        if end.promoted(file) {
            let j = choose|j: int|
                0 <= j < end.add.len() && file_name(end.add[j]) == file && (#[trigger] end.items[j])
                    == ItemState::Promoted;
            assert(file_names(add)[j] == file);
            assert(file_names(add).contains(file));
        }
        if end.deleted(file) {
            let i = choose|i: int|
                0 <= i < end.remove.len() && end.remove[i] == file && (#[trigger] end.removals[i])
                    == Removal::Removed;
            assert(end.removals[i] == outcomes.removal(i));
            assert(remove[i] == file && outcomes.deleted.contains(i));
            assert(gone);
        }
        if gone {
            let i = choose|i: int|
                0 <= i < remove.len() && #[trigger] remove[i] == file && outcomes.deleted.contains(
                    i,
                );
            assert(end.removals[i] == outcomes.removal(i));
            assert(end.deleted(file));
        }
        let there = library(listing.to_set(), end).contains(file);
        assert(there <==> later.contains(file));
        assert(there <==> (listing.contains(file) && !end.deleted(file)) || end.promoted(file));
        assert(end.deleted(file) <==> gone);
        assert(remove.contains(file) <==> listing.contains(file) && !file_names(tracks).contains(
            file,
        ));
        assert(stale(later, tracks).contains(file) <==> later.contains(file) && !file_names(
            tracks,
        ).contains(file));
    }
}

/// A run in which every action succeeds leaves nothing to do. Where the diff
/// of a listing and the desired tracks is run with removal and every action
/// ends well, the diff of the library as it then is and the same tracks asks
/// for no addition and no removal.
pub proof fn lemma_second_run_finds_nothing(
    listing: Seq<Seq<char>>,
    tracks: Seq<TrackView>,
    outcomes: Outcomes,
    later: Seq<Seq<char>>,
)
    requires
        forall|i: int| #[trigger] outcomes.deleted.contains(i),
        forall|i: int| #[trigger] outcomes.acquired.contains(i),
        forall|i: int| #[trigger] outcomes.tagged.contains(i),
        forall|i: int| #[trigger] outcomes.promoted.contains(i),
        later.to_set() == library(
            listing.to_set(),
            run_to_end(stale(listing, tracks), missing(listing, tracks), false, outcomes),
        ),
    ensures
        missing(later, tracks) == Seq::<TrackView>::empty(),
        stale(later, tracks) == Seq::<Seq<char>>::empty(),
{
    broadcast use vstd::seq_lib::group_seq_properties;

    lemma_second_run_retries_what_failed(listing, tracks, outcomes, later);
    let add = missing(later, tracks);
    if add.len() > 0 {
        assert(file_names(add)[0] == file_name(add[0]));
        assert(file_names(add).contains(file_name(add[0])));
    }
    assert(add =~= Seq::<TrackView>::empty());
    let remove = stale(later, tracks);
    if remove.len() > 0 {
        assert(remove.contains(remove[0]));
        let first = stale(listing, tracks);
        let k = choose|k: int| 0 <= k < first.len() && first[k] == remove[0];
        assert(outcomes.deleted.contains(k));
    }
    assert(remove =~= Seq::<Seq<char>>::empty());
}

} // verus!
