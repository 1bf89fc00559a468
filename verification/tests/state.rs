use scenable::i18n::LocalizedString;
use scenable::parsers::scenery_packs::SceneryPack;
use scenable::settings::Settings;
use scenable::setup::SetupParameters;
use scenable::state::{
    ActionHistory, ReduceWarning, ScenableAction, ScenableReducer, ScenableState,
    UpdateSceneryPack, UpdateSceneryPacks,
};

fn pack(enabled: bool, path: &str) -> SceneryPack {
    SceneryPack {
        enabled,
        path: path.to_string(),
    }
}

fn two_pack_list() -> im_rc::Vector<SceneryPack> {
    im_rc::Vector::from(vec![pack(true, "Custom Scenery/A"), pack(false, "Custom Scenery/B")])
}

fn label(text: &str) -> ActionHistory {
    ActionHistory::Labeled(LocalizedString::new(text.to_string()))
}

fn current_paths(state: &ScenableState) -> Vec<(bool, String)> {
    state
        .scenery_packs
        .iter()
        .map(|p| (p.enabled, p.path.clone()))
        .collect()
}

/// Loading entries with a label, then marking synced, reports the state as
/// synchronized; a labeled edit whose fresh snapshot id differs makes it
/// dirty; undoing back to the marked snapshot makes it clean again.
#[test]
fn sync_flag_follows_history_identity() {
    let reducer = ScenableReducer;
    let state = ScenableState::default();

    let loaded = reducer.reduce_with_id(
        state,
        ScenableAction::UpdateSceneryPacks(UpdateSceneryPacks {
            scenery_packs: two_pack_list(),
            history: label("loaded"),
            reset_history: true,
        }),
        7,
    );
    assert!(loaded.warning.is_none());
    assert!(!loaded.state.scenery_packs_synchronized());

    let marked = reducer.reduce_with_id(loaded.state, ScenableAction::UpdateSceneryPacksSyncStatus, 8);
    assert!(marked.warning.is_none());
    assert!(marked.state.scenery_packs_synchronized());

    let edited = reducer.reduce_with_id(
        marked.state,
        ScenableAction::UpdateSceneryPack(UpdateSceneryPack {
            index: 1,
            scenery_pack: pack(true, "Custom Scenery/B"),
            history: label("enabled B"),
        }),
        9,
    );
    assert!(edited.warning.is_none());
    assert!(!edited.state.scenery_packs_synchronized());
    assert_eq!(
        vec![
            (true, "Custom Scenery/A".to_string()),
            (true, "Custom Scenery/B".to_string()),
        ],
        current_paths(&edited.state)
    );

    let undone = reducer.reduce_with_id(edited.state, ScenableAction::UndoSceneryPacks, 10);
    assert!(undone.warning.is_none());
    assert!(undone.state.scenery_packs_synchronized());
    assert_eq!(
        vec![
            (true, "Custom Scenery/A".to_string()),
            (false, "Custom Scenery/B".to_string()),
        ],
        current_paths(&undone.state)
    );
}

/// An update whose index is out of range leaves the entries unchanged,
/// creates no history item, and reports the violation.
#[test]
fn out_of_range_update_is_reported() {
    let reducer = ScenableReducer;
    let state = ScenableState::default();
    let loaded = reducer
        .reduce(
            state,
            ScenableAction::UpdateSceneryPacks(UpdateSceneryPacks {
                scenery_packs: two_pack_list(),
                history: label("loaded"),
                reset_history: true,
            }),
        )
        .state;
    let history_len_before = loaded.scenery_packs_history.len();
    let paths_before = current_paths(&loaded);

    let outcome = reducer.reduce(
        loaded,
        ScenableAction::UpdateSceneryPack(UpdateSceneryPack {
            index: 99,
            scenery_pack: pack(true, "Custom Scenery/X"),
            history: label("cannot happen"),
        }),
    );
    assert_eq!(Some(ReduceWarning::InvariantViolation), outcome.warning);
    assert_eq!(paths_before, current_paths(&outcome.state));
    assert_eq!(history_len_before, outcome.state.scenery_packs_history.len());
}

/// Undo and redo at the ends of the stack change nothing and say so.
#[test]
fn undo_redo_at_stack_ends() {
    let reducer = ScenableReducer;
    let outcome = reducer.reduce(ScenableState::default(), ScenableAction::UndoSceneryPacks);
    assert_eq!(Some(ReduceWarning::NothingToUndo), outcome.warning);
    let outcome = reducer.reduce(outcome.state, ScenableAction::RedoSceneryPacks);
    assert_eq!(Some(ReduceWarning::NothingToRedo), outcome.warning);
}

/// A load without a reset pushes onto the existing history, and a load
/// without a label replaces the entries without touching the history.
#[test]
fn load_with_and_without_label() {
    let reducer = ScenableReducer;
    let state = ScenableState::default();
    let first = reducer
        .reduce(
            state,
            ScenableAction::UpdateSceneryPacks(UpdateSceneryPacks {
                scenery_packs: two_pack_list(),
                history: label("first load"),
                reset_history: false,
            }),
        )
        .state;
    assert_eq!(2, first.scenery_packs_history.len());
    assert_eq!(1, first.scenery_packs_history.position());

    let unlabeled = reducer
        .reduce(
            first,
            ScenableAction::UpdateSceneryPacks(UpdateSceneryPacks {
                scenery_packs: im_rc::Vector::from(vec![pack(true, "only")]),
                history: ActionHistory::Unlabeled,
                reset_history: false,
            }),
        )
        .state;
    assert_eq!(2, unlabeled.scenery_packs_history.len());
    assert_eq!(vec![(true, "only".to_string())], current_paths(&unlabeled));
}

/// Updating the settings replaces them and touches nothing else.
#[test]
fn update_settings_replaces_settings() {
    let reducer = ScenableReducer;
    let mut settings = Settings::default();
    assert!(settings.xplane_dir.is_none());
    settings.setup(SetupParameters {
        xplane_dir: "/opt/xplane".to_string(),
    });
    let outcome = reducer.reduce(
        ScenableState::default(),
        ScenableAction::UpdateSettings(settings),
    );
    assert!(outcome.warning.is_none());
    assert_eq!(
        Some("/opt/xplane".to_string()),
        outcome.state.settings.xplane_dir
    );
}

/// Labels render their text; an unlabeled action has none.
#[test]
fn action_history_labels() {
    assert_eq!(Some("toggled".to_string()), label("toggled").format_label());
    assert_eq!(None, ActionHistory::Unlabeled.format_label());
    assert_eq!("shown", LocalizedString::new("shown".to_string()).render());
}

/// A fresh default state is empty, at history cursor 0, and synchronized
/// (both the saved id and the initial snapshot id are zero).
#[test]
fn default_state_shape() {
    let state = ScenableState::default();
    assert!(state.scenery_packs.is_empty());
    assert_eq!(1, state.scenery_packs_history.len());
    assert_eq!(0, state.scenery_packs_history.position());
    assert!(state.settings.xplane_dir.is_none());
    assert!(state.scenery_packs_synchronized());
}

/// Two labeled edits draw distinct random snapshot identities, so a
/// labeled edit right after a sync mark almost surely reports dirty; this
/// exercises the random-identity path end to end.
#[test]
fn random_identities_mark_edits_dirty() {
    let reducer = ScenableReducer;
    let loaded = reducer
        .reduce(
            ScenableState::default(),
            ScenableAction::UpdateSceneryPacks(UpdateSceneryPacks {
                scenery_packs: two_pack_list(),
                history: label("loaded"),
                reset_history: true,
            }),
        )
        .state;
    let marked = reducer
        .reduce(loaded, ScenableAction::UpdateSceneryPacksSyncStatus)
        .state;
    assert!(marked.scenery_packs_synchronized());
    let edited = reducer
        .reduce(
            marked,
            ScenableAction::UpdateSceneryPack(UpdateSceneryPack {
                index: 0,
                scenery_pack: pack(false, "Custom Scenery/A"),
                history: label("disabled A"),
            }),
        )
        .state;
    assert!(!edited.scenery_packs_synchronized());
}
