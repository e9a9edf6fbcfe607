use adele::api::Command;
use adele::connections::{
    apply_outcome, commands_unavailable, delete_question, draw_edit_form, draw_list,
    draw_type_toggle, handle_key, ConnectionAvailability, ConnectionConfigView, ConnectionView,
    ConnectorKind, EditForm, Field, Listing, Mode, Request, RpcOutcome, State,
};
use adele::keys::{KeyCode, KeyEvent, KeyEventKind, KeyModifiers};

const ALL: [ConnectorKind; 4] = [
    ConnectorKind::Anthropic,
    ConnectorKind::OpenAi,
    ConnectorKind::Bedrock,
    ConnectorKind::Ollama,
];

fn view(id: &str, ty: &str) -> ConnectionView {
    ConnectionView {
        id: id.into(),
        connector_type: ty.into(),
        display_label: format!("{id} ({ty})"),
        availability: ConnectionAvailability::Available,
        has_credentials: true,
    }
}

fn press(code: KeyCode) -> KeyEvent {
    KeyEvent {
        code,
        modifiers: KeyModifiers {
            shift: false,
            control: false,
            alt: false,
            meta: false,
            super_key: false,
            hyper: false,
        },
        kind: KeyEventKind::Press,
    }
}

fn ctrl(code: KeyCode) -> KeyEvent {
    let mut key = press(code);
    key.modifiers.control = true;
    key
}

#[test]
fn connector_kind_round_trips_via_tag() {
    for kind in ALL {
        assert_eq!(ConnectorKind::from_tag(kind.tag()), Some(kind));
    }
}

#[test]
fn connector_kind_next_prev_cycle() {
    assert_eq!(ConnectorKind::Anthropic.next(), ConnectorKind::OpenAi);
    assert_eq!(ConnectorKind::Ollama.next(), ConnectorKind::Anthropic);
    assert_eq!(ConnectorKind::Anthropic.prev(), ConnectorKind::Ollama);
}

#[test]
fn fields_for_kind_excludes_irrelevant_fields() {
    let ollama_fields = EditForm::fields_for_kind(ConnectorKind::Ollama);
    assert!(!ollama_fields.contains(&Field::ApiKeyEnv));
    assert!(!ollama_fields.contains(&Field::Region));

    let bedrock_fields = EditForm::fields_for_kind(ConnectorKind::Bedrock);
    assert!(!bedrock_fields.contains(&Field::ApiKeyEnv));
    assert!(bedrock_fields.contains(&Field::Region));
    assert!(bedrock_fields.contains(&Field::AwsProfile));

    let anthropic_fields = EditForm::fields_for_kind(ConnectorKind::Anthropic);
    assert!(anthropic_fields.contains(&Field::ApiKeyEnv));
    assert!(!anthropic_fields.contains(&Field::Region));
}

#[test]
fn next_field_skips_to_first_when_kind_changes() {
    let anthropic = EditForm::fields_for_kind(ConnectorKind::Anthropic);
    let ollama = EditForm::fields_for_kind(ConnectorKind::Ollama);
    assert!(anthropic.contains(&Field::ApiKeyEnv));
    assert!(!ollama.contains(&Field::ApiKeyEnv));
}

#[test]
fn submit_blank_id_is_rejected() {
    let form = EditForm::empty();
    assert!(form.submit().is_err());
}

#[test]
fn submit_anthropic_emits_correct_variant() {
    let mut form = EditForm::empty();
    form.id.insert_str("work");
    form.api_key_env.insert_str("WORK_KEY");
    form.kind = ConnectorKind::Anthropic;
    let (id, config) = form.submit().unwrap();
    assert_eq!(id, "work");
    match config {
        ConnectionConfigView::Anthropic {
            api_key_env,
            base_url,
            ..
        } => {
            assert_eq!(api_key_env.as_deref(), Some("WORK_KEY"));
            assert!(base_url.is_none());
        }
        _ => panic!("expected Anthropic"),
    }
}

#[test]
fn submit_bedrock_emits_correct_variant() {
    let mut form = EditForm::empty();
    form.id.insert_str("aws");
    form.region.insert_str("us-east-1");
    form.aws_profile.insert_str("dev");
    form.kind = ConnectorKind::Bedrock;
    let (id, config) = form.submit().unwrap();
    assert_eq!(id, "aws");
    match config {
        ConnectionConfigView::Bedrock {
            aws_profile,
            region,
            base_url,
            ..
        } => {
            assert_eq!(aws_profile.as_deref(), Some("dev"));
            assert_eq!(region.as_deref(), Some("us-east-1"));
            assert!(base_url.is_none());
        }
        _ => panic!("expected Bedrock"),
    }
}

#[test]
fn submit_ollama_emits_correct_variant() {
    let mut form = EditForm::empty();
    form.id.insert_str("local");
    form.base_url.insert_str("http://127.0.0.1:11434");
    form.kind = ConnectorKind::Ollama;
    let (id, config) = form.submit().unwrap();
    assert_eq!(id, "local");
    match config {
        ConnectionConfigView::Ollama { base_url, .. } => {
            assert_eq!(base_url.as_deref(), Some("http://127.0.0.1:11434"));
        }
        _ => panic!("expected Ollama"),
    }
}

#[test]
fn from_view_locks_id_and_picks_kind() {
    let v = view("work", "openai");
    let form = EditForm::from_view(&v);
    assert_eq!(form.editing_id.as_deref(), Some("work"));
    assert_eq!(form.kind, ConnectorKind::OpenAi);
    assert_eq!(form.id.lines(), vec!["work".to_string()]);
}

fn loaded() -> State {
    let mut state = State::new();
    let rows = vec![view("work", "openai"), view("home", "ollama")];
    assert!(matches!(
        apply_outcome(&mut state, RpcOutcome::Listed(Listing::Rows(rows))),
        Request::Nothing
    ));
    state
}

#[test]
fn submit_openai_keeps_given_fields_only() {
    let mut form = EditForm::empty();
    form.id.insert_str("  work ");
    form.base_url.insert_str("https://x");
    form.kind = ConnectorKind::OpenAi;
    let (id, config) = form.submit().unwrap();
    assert_eq!(id, "work");
    assert_eq!(
        config,
        ConnectionConfigView::OpenAi {
            base_url: Some("https://x".into()),
            api_key_env: None,
            connect_timeout_secs: None,
            stream_timeout_secs: None,
            max_context_tokens: None,
        }
    );
}

#[test]
fn unknown_tags_are_no_connector() {
    assert_eq!(ConnectorKind::from_tag("teletype"), None);
    assert_eq!(ConnectorKind::OpenAi.label(), "OpenAI");
}

#[test]
fn selection_goes_in_a_circle() {
    let mut state = loaded();
    handle_key(&mut state, press(KeyCode::Up));
    assert_eq!(state.selected, 1);
    handle_key(&mut state, press(KeyCode::Char('j')));
    assert_eq!(state.selected, 0);
}

#[test]
fn editing_saves_an_update() {
    let mut state = loaded();
    handle_key(&mut state, press(KeyCode::Enter));
    assert_eq!(state.mode, Mode::Edit);
    match handle_key(&mut state, ctrl(KeyCode::Char('s'))) {
        Request::Save(Command::UpdateConnection { id, .. }) => assert_eq!(id, "work"),
        _ => panic!("nothing is saved"),
    }
    assert_eq!(state.busy.as_deref(), Some("Saving..."));
}

#[test]
fn a_new_connection_is_created() {
    let mut state = loaded();
    handle_key(&mut state, press(KeyCode::Char('a')));
    handle_key(&mut state, press(KeyCode::Char('x')));
    match handle_key(&mut state, ctrl(KeyCode::Char('s'))) {
        Request::Save(Command::CreateConnection { id, .. }) => assert_eq!(id, "x"),
        _ => panic!("nothing is saved"),
    }
}

#[test]
fn the_id_of_an_edited_connection_is_fixed() {
    let mut state = loaded();
    handle_key(&mut state, press(KeyCode::Char('e')));
    handle_key(&mut state, press(KeyCode::Char('x')));
    assert_eq!(state.error.as_deref(), Some("Id is immutable on edit"));
    assert_eq!(state.form.id.lines(), vec!["work".to_string()]);
}

#[test]
fn deletion_is_forced_on_request() {
    let mut state = loaded();
    handle_key(&mut state, press(KeyCode::Char('d')));
    assert_eq!(delete_question(&state), "Delete \"work\"?");
    let refused = RpcOutcome::Deleted {
        force: false,
        result: Err("Purpose 'chat' uses it".into()),
    };
    assert!(matches!(
        handle_key(&mut state, press(KeyCode::Char('y'))),
        Request::Delete { force: false, .. }
    ));
    apply_outcome(&mut state, refused);
    assert_eq!(
        state.error.as_deref(),
        Some("Purpose 'chat' uses it — press 'f' to force")
    );
    assert_eq!(state.mode, Mode::DeleteConfirm);
    match handle_key(&mut state, press(KeyCode::Char('f'))) {
        Request::Delete { id, force } => {
            assert_eq!(id, "work");
            assert!(force);
        }
        _ => panic!("nothing is deleted"),
    }
    assert!(matches!(
        apply_outcome(
            &mut state,
            RpcOutcome::Deleted {
                force: true,
                result: Ok(()),
            }
        ),
        Request::Refresh
    ));
    assert_eq!(state.mode, Mode::List);
}

#[test]
fn failures_are_shown() {
    let mut state = loaded();
    apply_outcome(&mut state, RpcOutcome::Listed(Listing::Failed("down".into())));
    assert_eq!(state.error.as_deref(), Some("Failed to load connections: down"));
    apply_outcome(&mut state, RpcOutcome::Listed(Listing::Unexpected("Ack".into())));
    assert_eq!(state.error.as_deref(), Some("Unexpected response: Ack"));
    apply_outcome(&mut state, RpcOutcome::Saved(Err("full".into())));
    assert_eq!(state.error.as_deref(), Some("Save failed: full"));
    let refused = RpcOutcome::Deleted {
        force: true,
        result: Err("no purpose".into()),
    };
    apply_outcome(&mut state, refused);
    assert_eq!(state.error.as_deref(), Some("Delete failed: no purpose"));
    assert!(commands_unavailable().contains("D-Bus"));
}

#[test]
fn rows_tell_why_a_connection_is_unavailable() {
    let mut state = loaded();
    state.connections[0].availability = ConnectionAvailability::Unavailable {
        reason: "no key".into(),
    };
    let list = draw_list(&state);
    assert_eq!(list.title, "Connections (2)");
    assert_eq!(list.selected, Some(0));
    let text: String = list.items[0][0].iter().map(|s| s.text.as_str()).collect();
    assert_eq!(text, "● work [openai]  ·  no key");
}

#[test]
fn the_form_shows_the_fields_of_its_connector() {
    let form = EditForm::empty();
    let rows = draw_edit_form(&form);
    assert_eq!(rows.len(), EditForm::fields_for_kind(form.kind).len());
    assert_eq!(rows[0].0, Field::Id);
    assert!(rows[0].2);
    assert_eq!(draw_type_toggle(ConnectorKind::Ollama).len() > 4, true);
}
