//! Application state and the pure reducer.
//!
//! All mutation is funnelled through `ScenableReducer::reduce`, a pure
//! function from the previous state and an action to a complete
//! replacement state. Edits that carry a history label push an
//! identity-tagged snapshot onto the undo/redo stack; whether the in-memory
//! state is synchronized with the manifest file on disk is derived by
//! comparing the saved snapshot identity with the identity at the history
//! cursor.

use std::rc::Rc;

use vstd::prelude::*;

use crate::history::{push_model, History};
use crate::i18n::LocalizedString;
use crate::pack_list::{packs_of, pack_list_clone, pack_list_len, pack_list_new, pack_list_set};
use crate::parsers::scenery_packs::SceneryPack;
use crate::settings::Settings;

verus! {

/// One undo/redo history item: the display label of the action that
/// produced it, and the snapshot it produced.
#[derive(Clone, Debug)]
pub struct ActionHistoryItem<T> {
    pub label: LocalizedString,
    pub item: T,
}

impl<T> ActionHistoryItem<T> {
    fn with_empty_label(item: T) -> (r: Self)
        ensures
            r.item == item,
            r.label@ == Seq::<char>::empty(),
    {
        let empty = String::new();
        Self { label: LocalizedString::new(empty), item }
    }
}

impl<T: Default> Default for ActionHistoryItem<T> {
    fn default() -> (r: Self)
        ensures
            T::default.ensures((), r.item),
            r.label@ == Seq::<char>::empty(),
    {
        Self::with_empty_label(Default::default())
    }
}

/// An immutable, identity-tagged snapshot of the full entry list. Two
/// snapshots stand for the same saved state exactly when their `id` fields
/// match; content equality is never used for synchronization detection.
#[derive(Clone, Debug)]
pub struct SceneryPacksHistoryItem {
    pub scenery_packs: im_rc::Vector<SceneryPack>,
    pub id: u64,
}

impl Default for SceneryPacksHistoryItem {
    fn default() -> (r: Self)
        ensures
            packs_of(r.scenery_packs) == Seq::<SceneryPack>::empty(),
            r.id == 0,
    {
        Self { scenery_packs: pack_list_new(), id: 0 }
    }
}

/// Relies on rand::random: a 64-bit snapshot identity drawn uniformly at
/// random. Nothing is promised of the value.
#[verifier::external_body]
fn fresh_snapshot_id() -> u64 {
    rand::random()
}

/// The mathematical value of one history item.
#[verifier::ext_equal]
pub struct ItemModel {
    pub label: Seq<char>,
    pub packs: Seq<SceneryPack>,
    pub id: u64,
}

/// The mathematical value of one history item of the scenery-pack stack.
pub open spec fn item_model(it: ActionHistoryItem<SceneryPacksHistoryItem>) -> ItemModel {
    ItemModel { label: it.label@, packs: packs_of(it.item.scenery_packs), id: it.item.id }
}

/// The mathematical values of a whole history stack, oldest first.
pub open spec fn hist_model(items: Seq<ActionHistoryItem<SceneryPacksHistoryItem>>) -> Seq<
    ItemModel,
> {
    items.map_values(|it: ActionHistoryItem<SceneryPacksHistoryItem>| item_model(it))
}

/// The whole application state.
#[derive(Clone, Debug)]
pub struct ScenableState {
    pub settings: Rc<Settings>,
    pub scenery_packs: im_rc::Vector<SceneryPack>,
    pub scenery_packs_history: History<ActionHistoryItem<SceneryPacksHistoryItem>>,
    /// The id of the snapshot which corresponds to the currently saved
    /// state of the manifest file.
    pub scenery_packs_saved_history_id: u64,
}

/// The mathematical value of the application state.
#[verifier::ext_equal]
pub struct StateModel {
    pub settings: Settings,
    pub packs: Seq<SceneryPack>,
    pub hist: Seq<ItemModel>,
    pub cursor: int,
    pub saved_id: u64,
}

/// The history stack is never empty and its cursor stays in bounds.
pub open spec fn state_wf(s: StateModel) -> bool {
    0 <= s.cursor < s.hist.len()
}

/// The cursor's snapshot identity matches the one last confirmed written
/// to or read from disk.
pub open spec fn spec_synchronized(s: StateModel) -> bool {
    s.saved_id == s.hist[s.cursor].id
}

impl View for ScenableState {
    type V = StateModel;

    open spec fn view(&self) -> StateModel {
        StateModel {
            settings: *self.settings,
            packs: packs_of(self.scenery_packs),
            hist: hist_model(self.scenery_packs_history.items()),
            cursor: self.scenery_packs_history.cursor(),
            saved_id: self.scenery_packs_saved_history_id,
        }
    }
}

impl Default for ScenableState {
    fn default() -> (r: Self)
        ensures
            r.wf(),
            r@.settings.xplane_dir is None,
            r@.packs == Seq::<SceneryPack>::empty(),
            r@.hist.len() == 1,
            r@.hist[0].packs == Seq::<SceneryPack>::empty(),
            r@.hist[0].id == 0,
            r@.cursor == 0,
            r@.saved_id == 0,
    {
        let r = ScenableState {
            settings: Rc::new(Settings::default()),
            scenery_packs: pack_list_new(),
            scenery_packs_history: History::new(ActionHistoryItem::default()),
            scenery_packs_saved_history_id: 0,
        };
        proof {
            assert(r@.hist =~= hist_model(r.scenery_packs_history.items()));
        }
        r
    }
}

impl ScenableState {
    /// The state invariant: the history stack is well formed.
    pub open spec fn wf(&self) -> bool {
        self.scenery_packs_history.wf()
    }

    /// The snapshot identity at the history cursor.
    fn current_history_id(&self) -> (r: u64)
        requires
            self.wf(),
        ensures
            r == self@.hist[self@.cursor].id,
    {
        let (current_history, _) = self.scenery_packs_history.peek_current();
        current_history.item.id
    }

    /// Returns whether or not the state of scenery packs is synchronized
    /// with what is on disk.
    pub fn scenery_packs_synchronized(&self) -> (r: bool)
        requires
            self.wf(),
        ensures
            r == spec_synchronized(self@),
    {
        self.scenery_packs_saved_history_id == self.current_history_id()
    }
}

/// Whether an action carries a display label for the history stack.
#[derive(Clone, Debug)]
pub enum ActionHistory {
    /// The action is recorded in the history under this label.
    Labeled(LocalizedString),
    /// The action leaves the history untouched.
    Unlabeled,
}

impl ActionHistory {
    /// The label's text, if the action carries one.
    pub open spec fn spec_label(&self) -> Option<Seq<char>> {
        match self {
            ActionHistory::Labeled(label) => Some(label@),
            ActionHistory::Unlabeled => None,
        }
    }

    /// The rendered label, if the action carries one.
    pub fn format_label(&self) -> (r: Option<String>)
        ensures
            match r {
                Some(s) => self.spec_label() == Some(s@),
                None => self.spec_label() is None,
            },
    {
        match self {
            ActionHistory::Labeled(label) => Some(label.render()),
            ActionHistory::Unlabeled => None,
        }
    }
}

/// Overwrite/update the state of all scenery packs in memory.
#[derive(Clone, Debug)]
pub struct UpdateSceneryPacks {
    pub scenery_packs: im_rc::Vector<SceneryPack>,
    pub history: ActionHistory,
    pub reset_history: bool,
}

/// Edit a single scenery pack.
#[derive(Clone, Debug)]
pub struct UpdateSceneryPack {
    pub index: usize,
    pub scenery_pack: SceneryPack,
    pub history: ActionHistory,
}

/// The actions the reducer understands.
#[derive(Clone, Debug)]
pub enum ScenableAction {
    /// Update the application settings.
    UpdateSettings(Settings),
    /// See [`UpdateSceneryPacks`].
    UpdateSceneryPacks(UpdateSceneryPacks),
    /// See [`UpdateSceneryPack`].
    UpdateSceneryPack(UpdateSceneryPack),
    /// Undo the previous change to scenery packs.
    UndoSceneryPacks,
    /// Redo the previously undone change to scenery packs.
    RedoSceneryPacks,
    /// Notifies that the state of scenery packs has been read from or
    /// written to disk.
    UpdateSceneryPacksSyncStatus,
}

/// The mathematical value of an action.
#[verifier::ext_equal]
pub enum ActionModel {
    UpdateSettings(Settings),
    UpdateSceneryPacks { packs: Seq<SceneryPack>, label: Option<Seq<char>>, reset_history: bool },
    UpdateSceneryPack { index: int, pack: SceneryPack, label: Option<Seq<char>> },
    UndoSceneryPacks,
    RedoSceneryPacks,
    UpdateSceneryPacksSyncStatus,
}

impl View for ScenableAction {
    type V = ActionModel;

    open spec fn view(&self) -> ActionModel {
        match self {
            ScenableAction::UpdateSettings(s) => ActionModel::UpdateSettings(*s),
            ScenableAction::UpdateSceneryPacks(a) => ActionModel::UpdateSceneryPacks {
                packs: packs_of(a.scenery_packs),
                label: a.history.spec_label(),
                reset_history: a.reset_history,
            },
            ScenableAction::UpdateSceneryPack(a) => ActionModel::UpdateSceneryPack {
                index: a.index as int,
                pack: a.scenery_pack,
                label: a.history.spec_label(),
            },
            ScenableAction::UndoSceneryPacks => ActionModel::UndoSceneryPacks,
            ScenableAction::RedoSceneryPacks => ActionModel::RedoSceneryPacks,
            ScenableAction::UpdateSceneryPacksSyncStatus => ActionModel::UpdateSceneryPacksSyncStatus,
        }
    }
}

/// A non-fatal condition the reducer reports to its caller instead of
/// changing the state.
#[derive(Clone, Copy, Debug, PartialEq, Eq, Structural)]
pub enum ReduceWarning {
    /// An entry index was out of range; the entries are left unchanged and
    /// no history item is created.
    InvariantViolation,
    /// There is nothing to undo: the cursor is at the bottom of the stack.
    NothingToUndo,
    /// There is nothing to redo: the cursor is at the top of the stack.
    NothingToRedo,
}

/// What one reduction produced: the complete replacement state, and the
/// non-fatal warning, if any arose.
pub struct ReduceOutcome {
    pub state: ScenableState,
    pub warning: Option<ReduceWarning>,
}

/// The mathematical value of a reduction outcome.
#[verifier::ext_equal]
pub struct ReduceModel {
    pub state: StateModel,
    pub warning: Option<ReduceWarning>,
}

impl View for ReduceOutcome {
    type V = ReduceModel;

    open spec fn view(&self) -> ReduceModel {
        ReduceModel { state: self.state@, warning: self.warning }
    }
}

/// What `reduce` computes, as a function of the previous state, the
/// action, and the identity chosen for any snapshot the action creates.
pub open spec fn spec_reduce(prev: StateModel, action: ActionModel, fresh_id: u64) -> ReduceModel {
    match action {
        ActionModel::UpdateSettings(s) => ReduceModel {
            state: StateModel { settings: s, ..prev },
            warning: None,
        },
        ActionModel::UpdateSceneryPacks { packs, label, reset_history } => {
            let (hist, cursor) = match label {
                Option::Some(lab) => {
                    let item = ItemModel { label: lab, packs, id: fresh_id };
                    if reset_history {
                        (seq![item], 0int)
                    } else {
                        push_model(prev.hist, prev.cursor, item)
                    }
                },
                Option::None => (prev.hist, prev.cursor),
            };
            ReduceModel {
                state: StateModel { packs, hist, cursor, ..prev },
                warning: None,
            }
        },
        ActionModel::UpdateSceneryPack { index, pack, label } => {
            if 0 <= index < prev.packs.len() {
                let packs = prev.packs.update(index, pack);
                let (hist, cursor) = match label {
                    Option::Some(lab) => push_model(
                        prev.hist,
                        prev.cursor,
                        ItemModel { label: lab, packs, id: fresh_id },
                    ),
                    Option::None => (prev.hist, prev.cursor),
                };
                ReduceModel {
                    state: StateModel { packs, hist, cursor, ..prev },
                    warning: None,
                }
            } else {
                ReduceModel { state: prev, warning: Some(ReduceWarning::InvariantViolation) }
            }
        },
        ActionModel::UndoSceneryPacks => {
            if prev.cursor > 0 {
                let cursor = prev.cursor - 1;
                ReduceModel {
                    state: StateModel { packs: prev.hist[cursor].packs, cursor, ..prev },
                    warning: None,
                }
            } else {
                ReduceModel { state: prev, warning: Some(ReduceWarning::NothingToUndo) }
            }
        },
        ActionModel::RedoSceneryPacks => {
            if prev.cursor < prev.hist.len() - 1 {
                let cursor = prev.cursor + 1;
                ReduceModel {
                    state: StateModel { packs: prev.hist[cursor].packs, cursor, ..prev },
                    warning: None,
                }
            } else {
                ReduceModel { state: prev, warning: Some(ReduceWarning::NothingToRedo) }
            }
        },
        ActionModel::UpdateSceneryPacksSyncStatus => ReduceModel {
            state: StateModel { saved_id: prev.hist[prev.cursor].id, ..prev },
            warning: None,
        },
    }
}

/// The reducer: the one legal way to produce a new application state.
pub struct ScenableReducer;

impl ScenableReducer {
    /// The pure reduction with the snapshot identity made explicit:
    /// applies `action` to `prev_state`, tagging any snapshot the action
    /// creates with `fresh_id`.
    pub fn reduce_with_id(
        &self,
        prev_state: ScenableState,
        action: ScenableAction,
        fresh_id: u64,
    ) -> (out: ReduceOutcome)
        requires
            prev_state.wf(),
        ensures
            out.state.wf(),
            out@ == spec_reduce(prev_state@, action@, fresh_id),
    {
        let ghost prev_model = prev_state@;
        let ghost action_model = action@;
        match action {
            ScenableAction::UpdateSettings(new_settings) => {
                let ScenableState {
                    settings: _,
                    scenery_packs,
                    scenery_packs_history,
                    scenery_packs_saved_history_id,
                } = prev_state;
                let state = ScenableState {
                    settings: Rc::new(new_settings),
                    scenery_packs,
                    scenery_packs_history,
                    scenery_packs_saved_history_id,
                };
                proof {
                    assert(state@ =~~= spec_reduce(prev_model, action_model, fresh_id).state);
                }
                ReduceOutcome { state, warning: None }
            },
            ScenableAction::UpdateSceneryPacks(a) => {
                let UpdateSceneryPacks { scenery_packs, history, reset_history } = a;
                let ScenableState {
                    settings,
                    scenery_packs: _,
                    scenery_packs_history: mut history_stack,
                    scenery_packs_saved_history_id,
                } = prev_state;
                match history {
                    ActionHistory::Labeled(label) => {
                        let snapshot = SceneryPacksHistoryItem {
                            scenery_packs: pack_list_clone(&scenery_packs),
                            id: fresh_id,
                        };
                        let item = ActionHistoryItem { label, item: snapshot };
                        if reset_history {
                            history_stack.reset(item);
                            proof {
                                assert(hist_model(history_stack.items()) =~= seq![
                                    item_model(item),
                                ]);
                            }
                        } else {
                            history_stack.push(item);
                        }
                    },
                    ActionHistory::Unlabeled => {},
                }
                let state = ScenableState {
                    settings,
                    scenery_packs,
                    scenery_packs_history: history_stack,
                    scenery_packs_saved_history_id,
                };
                proof {
                    assert(state@ =~~= spec_reduce(prev_model, action_model, fresh_id).state);
                }
                ReduceOutcome { state, warning: None }
            },
            ScenableAction::UpdateSceneryPack(a) => {
                let UpdateSceneryPack { index, scenery_pack, history } = a;
                let ScenableState {
                    settings,
                    scenery_packs: mut packs,
                    scenery_packs_history: mut history_stack,
                    scenery_packs_saved_history_id,
                } = prev_state;
                let len = pack_list_len(&packs);
                if index < len {
                    pack_list_set(&mut packs, index, scenery_pack);
                    match history {
                        ActionHistory::Labeled(label) => {
                            let snapshot = SceneryPacksHistoryItem {
                                scenery_packs: pack_list_clone(&packs),
                                id: fresh_id,
                            };
                            history_stack.push(ActionHistoryItem { label, item: snapshot });
                        },
                        ActionHistory::Unlabeled => {},
                    }
                    let state = ScenableState {
                        settings,
                        scenery_packs: packs,
                        scenery_packs_history: history_stack,
                        scenery_packs_saved_history_id,
                    };
                    proof {
                        assert(state@ =~~= spec_reduce(prev_model, action_model, fresh_id).state);
                    }
                    ReduceOutcome { state, warning: None }
                } else {
                    let state = ScenableState {
                        settings,
                        scenery_packs: packs,
                        scenery_packs_history: history_stack,
                        scenery_packs_saved_history_id,
                    };
                    proof {
                        assert(state@ =~~= spec_reduce(prev_model, action_model, fresh_id).state);
                    }
                    ReduceOutcome { state, warning: Some(ReduceWarning::InvariantViolation) }
                }
            },
            ScenableAction::UndoSceneryPacks => {
                let ScenableState {
                    settings,
                    scenery_packs: mut packs,
                    scenery_packs_history: mut history_stack,
                    scenery_packs_saved_history_id,
                } = prev_state;
                let mut warning: Option<ReduceWarning> = None;
                match history_stack.undo() {
                    Some((item, _position)) => {
                        packs = pack_list_clone(&item.item.scenery_packs);
                    },
                    None => {
                        warning = Some(ReduceWarning::NothingToUndo);
                    },
                }
                let state = ScenableState {
                    settings,
                    scenery_packs: packs,
                    scenery_packs_history: history_stack,
                    scenery_packs_saved_history_id,
                };
                proof {
                    assert(state@ =~~= spec_reduce(prev_model, action_model, fresh_id).state);
                }
                ReduceOutcome { state, warning }
            },
            ScenableAction::RedoSceneryPacks => {
                let ScenableState {
                    settings,
                    scenery_packs: mut packs,
                    scenery_packs_history: mut history_stack,
                    scenery_packs_saved_history_id,
                } = prev_state;
                let mut warning: Option<ReduceWarning> = None;
                match history_stack.redo() {
                    Some((item, _position)) => {
                        packs = pack_list_clone(&item.item.scenery_packs);
                    },
                    None => {
                        warning = Some(ReduceWarning::NothingToRedo);
                    },
                }
                let state = ScenableState {
                    settings,
                    scenery_packs: packs,
                    scenery_packs_history: history_stack,
                    scenery_packs_saved_history_id,
                };
                proof {
                    assert(state@ =~~= spec_reduce(prev_model, action_model, fresh_id).state);
                }
                ReduceOutcome { state, warning }
            },
            ScenableAction::UpdateSceneryPacksSyncStatus => {
                let new_saved = prev_state.current_history_id();
                let ScenableState {
                    settings,
                    scenery_packs,
                    scenery_packs_history,
                    scenery_packs_saved_history_id: _,
                } = prev_state;
                let state = ScenableState {
                    settings,
                    scenery_packs,
                    scenery_packs_history,
                    scenery_packs_saved_history_id: new_saved,
                };
                proof {
                    assert(state@ =~~= spec_reduce(prev_model, action_model, fresh_id).state);
                }
                ReduceOutcome { state, warning: None }
            },
        }
    }

    /// Applies `action` to `prev_state`, drawing a fresh random identity
    /// for any snapshot the action creates.
    pub fn reduce(&self, prev_state: ScenableState, action: ScenableAction) -> (out: ReduceOutcome)
        requires
            prev_state.wf(),
        ensures
            out.state.wf(),
            exists|id: u64| out@ == spec_reduce(prev_state@, action@, id),
    {
        let fresh_id = fresh_snapshot_id();
        let ghost prev_model = prev_state@;
        let ghost action_model = action@;
        let out = self.reduce_with_id(prev_state, action, fresh_id);
        proof {
            assert(out@ == spec_reduce(prev_model, action_model, fresh_id));
        }
        out
    }
}

/// Reduction preserves the state invariant: the history stack stays
/// non-empty and the cursor stays in bounds, whatever the action.
pub proof fn lemma_reduce_preserves_wf(prev: StateModel, action: ActionModel, fresh_id: u64)
    requires
        state_wf(prev),
    ensures
        state_wf(spec_reduce(prev, action, fresh_id).state),
{
}

/// The synchronization flag across a load, a save mark, an edit, and an
/// undo: marking synced raises it; a labeled edit whose fresh snapshot
/// identity differs from the saved one clears it; undoing back to the
/// marked snapshot raises it again.
pub proof fn lemma_sync_flag(
    s0: StateModel,
    packs: Seq<SceneryPack>,
    load_label: Seq<char>,
    reset_history: bool,
    load_id: u64,
    index: int,
    pack: SceneryPack,
    edit_label: Seq<char>,
    edit_id: u64,
    mark_id: u64,
    undo_id: u64,
)
    requires
        state_wf(s0),
        edit_id != load_id,
        0 <= index < packs.len(),
    ensures
        ({
            let s1 = spec_reduce(
                s0,
                ActionModel::UpdateSceneryPacks {
                    packs,
                    label: Some(load_label),
                    reset_history,
                },
                load_id,
            ).state;
            let s2 = spec_reduce(s1, ActionModel::UpdateSceneryPacksSyncStatus, mark_id).state;
            let s3 = spec_reduce(
                s2,
                ActionModel::UpdateSceneryPack { index, pack, label: Some(edit_label) },
                edit_id,
            ).state;
            let s4 = spec_reduce(s3, ActionModel::UndoSceneryPacks, undo_id).state;
            &&& spec_synchronized(s2)
            &&& !spec_synchronized(s3)
            &&& spec_synchronized(s4)
        }),
{
    let s1 = spec_reduce(
        s0,
        ActionModel::UpdateSceneryPacks { packs, label: Some(load_label), reset_history },
        load_id,
    ).state;
    let s2 = spec_reduce(s1, ActionModel::UpdateSceneryPacksSyncStatus, mark_id).state;
    let s3 = spec_reduce(
        s2,
        ActionModel::UpdateSceneryPack { index, pack, label: Some(edit_label) },
        edit_id,
    ).state;
    let s4 = spec_reduce(s3, ActionModel::UndoSceneryPacks, undo_id).state;
    assert(s1.hist[s1.cursor].id == load_id);
    assert(s1.packs == packs);
    assert(s2.saved_id == load_id);
    assert(s3.hist[s3.cursor].id == edit_id);
    assert(s4.hist == s3.hist);
    assert(s4.cursor == s2.cursor);
    assert(s3.hist[s2.cursor] == s2.hist[s2.cursor]);
    assert(s4.hist[s4.cursor].id == load_id);
}

} // verus!
