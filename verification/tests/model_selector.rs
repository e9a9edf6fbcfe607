use adele::api::{
    Command, ConversationModelSelectionView, ModelInfoView, ModelListing, SendPromptOverride,
};
use adele::keys::{KeyCode, KeyEvent, KeyEventKind, KeyModifiers};
use adele::model_selector::{
    advance, apply_models_result, commands_unavailable, draw_header, draw_list, handle_key, hints,
    load_failed, popup, seed_selection, Outcome, Request, State,
};
use adele::view::Rect;

fn listing(connection: &str, model: &str) -> ModelListing {
    ModelListing {
        connection_id: connection.into(),
        connection_label: format!("{connection} (test)"),
        model: ModelInfoView {
            id: model.into(),
            display_name: model.into(),
            context_limit: None,
        },
    }
}

fn press(code: KeyCode) -> KeyEvent {
    KeyEvent {
        code,
        modifiers: KeyModifiers {
            shift: false,
            control: false,
            alt: false,
            meta: false,
            super_key: false,
            hyper: false,
        },
        kind: KeyEventKind::Press,
    }
}

#[test]
fn seed_selection_finds_matching_row() {
    let mut state = State {
        models: vec![
            listing("a", "alpha"),
            listing("b", "beta"),
            listing("c", "gamma"),
        ],
        selected: 0,
        current: Some(ConversationModelSelectionView {
            connection_id: "b".into(),
            model_id: "beta".into(),
            effort: None,
        }),
        error: None,
        busy: None,
        outcome: None,
    };
    seed_selection(&mut state);
    assert_eq!(state.selected, 1);
}

#[test]
fn seed_selection_keeps_zero_when_no_match() {
    let mut state = State {
        models: vec![listing("a", "alpha")],
        selected: 0,
        current: Some(ConversationModelSelectionView {
            connection_id: "z".into(),
            model_id: "zeta".into(),
            effort: None,
        }),
        error: None,
        busy: None,
        outcome: None,
    };
    seed_selection(&mut state);
    assert_eq!(state.selected, 0);
}

#[test]
fn advance_wraps_at_boundaries() {
    let mut state = State {
        models: vec![listing("a", "alpha"), listing("b", "beta")],
        selected: 0,
        current: None,
        error: None,
        busy: None,
        outcome: None,
    };
    advance(&mut state, true);
    assert_eq!(state.selected, 1);
    advance(&mut state, true);
    assert_eq!(state.selected, 0);
    advance(&mut state, false);
    assert_eq!(state.selected, 1);
}

#[test]
fn advance_on_empty_list_is_noop() {
    let mut state = State {
        models: Vec::new(),
        selected: 0,
        current: None,
        error: None,
        busy: None,
        outcome: None,
    };
    advance(&mut state, true);
    assert_eq!(state.selected, 0);
}

#[test]
fn enter_picks_the_preselected_model() {
    let mut state = State::new(Some(ConversationModelSelectionView {
        connection_id: "b".into(),
        model_id: "beta".into(),
        effort: None,
    }));
    apply_models_result(
        &mut state,
        Ok(vec![listing("a", "alpha"), listing("b", "beta")]),
    );
    handle_key(&mut state, press(KeyCode::Enter));
    assert_eq!(
        state.outcome,
        Some(Outcome::Selected(SendPromptOverride {
            connection_id: "b".into(),
            model_id: "beta".into(),
            effort: None,
        }))
    );
}

#[test]
fn esc_picks_nothing() {
    let mut state = State::new(None);
    handle_key(&mut state, press(KeyCode::Esc));
    assert_eq!(state.outcome, Some(Outcome::Cancelled));
    assert_eq!(Outcome::default(), Outcome::Cancelled);
}

#[test]
fn refreshing_asks_the_daemon_again() {
    let mut state = State::new(None);
    match handle_key(&mut state, press(KeyCode::Char('r'))) {
        Request::Models(Command::ListAvailableModels { connection_id, refresh }) => {
            assert_eq!(connection_id, None);
            assert!(refresh);
        }
        _ => panic!("nothing is asked for"),
    }
    assert_eq!(state.busy.as_deref(), Some("Refreshing models from daemon..."));
    apply_models_result(&mut state, Err(load_failed("down")));
    assert_eq!(state.error.as_deref(), Some("Failed to load models: down"));
    assert_eq!(state.busy, None);
    assert!(commands_unavailable().contains("D-Bus"));
}

#[test]
fn the_current_model_is_starred() {
    let mut state = State::new(Some(ConversationModelSelectionView {
        connection_id: "a".into(),
        model_id: "alpha".into(),
        effort: None,
    }));
    assert_eq!(
        draw_list(&state).items[0][0][0].text,
        "(no models — configure connections via F3 first)"
    );
    let mut named = listing("b", "beta");
    named.model.display_name = "Beta".into();
    apply_models_result(&mut state, Ok(vec![listing("a", "alpha"), named]));
    let list = draw_list(&state);
    let rows: Vec<String> = list
        .items
        .iter()
        .map(|item| item[0].iter().map(|s| s.text.as_str()).collect())
        .collect();
    assert_eq!(
        rows,
        vec!["★ a (test)  ·  alpha", "  b (test)  ·  beta  (Beta)"]
    );
    assert_eq!(draw_header(&state)[1][0].text, "Current: a · alpha");
    assert_eq!(hints().len(), 3);
}

#[test]
fn the_popup_stays_on_the_screen() {
    let area = Rect {
        x: 0,
        y: 0,
        width: 100,
        height: 40,
    };
    assert_eq!(
        popup(area),
        Rect {
            x: 10,
            y: 8,
            width: 80,
            height: 24,
        }
    );
    let small = Rect {
        x: 0,
        y: 0,
        width: 6,
        height: 3,
    };
    assert_eq!(popup(small).width, 0);
}
