use adele::kb::{
    apply_outcome, delete_question, draw_header, draw_hints, draw_list, draw_status, draw_strip,
    form_title, handle_key, on_timer, search_title, summary_of, with_metadata, EditField, EditForm,
    KnowledgeEntryView, Mode, Request, RpcOutcome, State, LIST_LIMIT, SEARCH_DEBOUNCE_MS,
    SEARCH_LIMIT,
};
use adele::keys::{KeyCode, KeyEvent, KeyEventKind, KeyModifiers};
use serde_json::Value;

fn json(text: &str) -> Value {
    serde_json::from_str(text).unwrap()
}

fn entry(id: &str, content: &str) -> KnowledgeEntryView {
    KnowledgeEntryView {
        id: id.into(),
        content: content.into(),
        tags: vec!["preference".into()],
        metadata: json("{\"source\": \"manual\"}"),
        created_at: "2026-05-01T00:00:00Z".into(),
        updated_at: "2026-05-02T12:34:56Z".into(),
    }
}

fn press(code: KeyCode) -> KeyEvent {
    KeyEvent {
        code,
        modifiers: KeyModifiers {
            shift: false,
            control: false,
            alt: false,
            meta: false,
            super_key: false,
            hyper: false,
        },
        kind: KeyEventKind::Press,
    }
}

fn ctrl(code: KeyCode) -> KeyEvent {
    let mut key = press(code);
    key.modifiers.control = true;
    key
}

#[test]
fn empty_form_submit_rejects_blank_content() {
    let form = EditForm::empty();
    assert!(form.submit().is_err());
}

#[test]
fn form_submit_parses_tags_and_metadata() {
    let mut form = EditForm::empty();
    form.content.insert_str("hello world");
    form.tags.insert_str("alpha, beta , ,gamma");
    form.metadata.insert_str("{\"k\":\"v\"}");
    let (content, tags, metadata) = form.submit().unwrap();
    assert_eq!(content, "hello world");
    assert_eq!(tags, vec!["alpha", "beta", "gamma"]);
    assert_eq!(metadata, json("{\"k\": \"v\"}"));
}

#[test]
fn form_submit_treats_empty_metadata_as_null() {
    let mut form = EditForm::empty();
    form.content.insert_str("body");
    let (_, _, metadata) = form.submit().unwrap();
    assert_eq!(metadata, Value::Null);
}

#[test]
fn form_submit_rejects_invalid_metadata_json() {
    let mut form = EditForm::empty();
    form.content.insert_str("body");
    form.metadata.insert_str("{not json");
    let err = form.submit().err().unwrap();
    assert!(err.contains("Metadata"));
}

#[test]
fn from_entry_populates_all_fields() {
    let e = entry("abc", "first line\nsecond line");
    let form = EditForm::from_entry(&e);
    assert_eq!(form.editing_id.as_deref(), Some("abc"));
    assert!(form.updated_at.is_some());
    assert_eq!(form.content.lines().join("\n"), "first line\nsecond line");
    assert_eq!(form.tags.lines().join(""), "preference");
}

#[test]
fn next_and_prev_field_cycle() {
    let mut form = EditForm::empty();
    assert_eq!(form.focus, EditField::Content);
    form.next_field();
    assert_eq!(form.focus, EditField::Tags);
    form.next_field();
    assert_eq!(form.focus, EditField::Metadata);
    form.next_field();
    assert_eq!(form.focus, EditField::Content);
    form.prev_field();
    assert_eq!(form.focus, EditField::Metadata);
}

#[test]
fn from_entry_indents_the_metadata() {
    let form = EditForm::from_entry(&entry("abc", "x"));
    assert_eq!(
        form.metadata.lines(),
        vec!["{", "  \"source\": \"manual\"", "}"]
    );
    assert_eq!(form.metadata.cursor(), (0, 1));
    assert_eq!(form.content.cursor(), (0, 1));
}

#[test]
fn metadata_errors_are_explained() {
    assert_eq!(
        with_metadata("c".into(), Vec::new(), Err("expected value".into())),
        Err("Metadata is not valid JSON: expected value".to_string())
    );
    assert_eq!(
        with_metadata("c".into(), vec!["t".into()], Ok(Value::Null)),
        Ok(("c".to_string(), vec!["t".to_string()], Value::Null))
    );
}

fn loaded() -> State {
    let mut state = State::new();
    apply_outcome(
        &mut state,
        RpcOutcome::Listed(Ok(vec![entry("a", "alpha"), entry("b", "beta\nmore")])),
    );
    state
}

#[test]
fn typing_searches_after_a_pause() {
    let mut state = loaded();
    handle_key(&mut state, press(KeyCode::Char('/')), 1000);
    assert_eq!(state.mode, Mode::Search);
    handle_key(&mut state, press(KeyCode::Char('x')), 1000);
    assert_eq!(state.search_deadline, Some(1000 + SEARCH_DEBOUNCE_MS));
    handle_key(&mut state, press(KeyCode::Enter), 1100);
    assert_eq!(state.search_deadline, Some(1100));
    assert_eq!(state.mode, Mode::List);
    match on_timer(&mut state) {
        Request::Search { query, limit } => {
            assert_eq!(query, "x");
            assert_eq!(limit, SEARCH_LIMIT);
        }
        _ => panic!("no search"),
    }
    assert_eq!(state.search_deadline, None);
}

#[test]
fn clearing_the_search_lists_everything() {
    let mut state = loaded();
    state.mode = Mode::Search;
    handle_key(&mut state, press(KeyCode::Char('x')), 0);
    handle_key(&mut state, press(KeyCode::Esc), 5);
    assert_eq!(state.search_deadline, Some(5));
    match on_timer(&mut state) {
        Request::List { limit, offset } => {
            assert_eq!(limit, LIST_LIMIT);
            assert_eq!(offset, 0);
        }
        _ => panic!("no list"),
    }
}

#[test]
fn a_saved_entry_is_selected_in_place() {
    let mut state = loaded();
    apply_outcome(&mut state, RpcOutcome::Saved(Ok(entry("b", "changed"))));
    assert_eq!(state.selected, 1);
    assert_eq!(state.entries[1].content, "changed");
    apply_outcome(&mut state, RpcOutcome::Saved(Ok(entry("c", "new"))));
    assert_eq!(state.selected, 0);
    assert_eq!(state.entries.len(), 3);
    assert_eq!(state.entries[0].id, "c");
}

#[test]
fn a_deleted_entry_is_gone() {
    let mut state = loaded();
    state.selected = 1;
    handle_key(&mut state, press(KeyCode::Char('d')), 0);
    assert_eq!(delete_question(&state), "Delete \"beta\"?");
    let id = match handle_key(&mut state, press(KeyCode::Char('y')), 0) {
        Request::Delete { id } => id,
        _ => panic!("nothing is deleted"),
    };
    apply_outcome(&mut state, RpcOutcome::Deleted { id, result: Ok(()) });
    assert_eq!(state.entries.len(), 1);
    assert_eq!(state.selected, 0);
    assert_eq!(state.mode, Mode::List);
}

#[test]
fn saving_updates_the_edited_entry() {
    let mut state = loaded();
    handle_key(&mut state, press(KeyCode::Enter), 0);
    match handle_key(&mut state, ctrl(KeyCode::Char('s')), 0) {
        Request::Update { id, content, tags, metadata } => {
            assert_eq!(id, "a");
            assert_eq!(content, "alpha");
            assert_eq!(tags, vec!["preference"]);
            assert_eq!(metadata, json("{\"source\":\"manual\"}"));
        }
        _ => panic!("nothing is saved"),
    }
}

#[test]
fn enter_breaks_no_line_in_the_tags() {
    let mut state = loaded();
    handle_key(&mut state, press(KeyCode::Char('n')), 0);
    handle_key(&mut state, press(KeyCode::Tab), 0);
    handle_key(&mut state, press(KeyCode::Enter), 0);
    handle_key(&mut state, press(KeyCode::Char('t')), 0);
    assert_eq!(state.edit.tags.lines(), vec!["t"]);
    assert!(matches!(
        handle_key(&mut state, ctrl(KeyCode::Char('s')), 0),
        Request::Nothing
    ));
    assert_eq!(state.error.as_deref(), Some("Content is required"));
}

#[test]
fn long_first_lines_are_cut() {
    assert_eq!(summary_of("one\r\ntwo", 80), "one");
    assert_eq!(summary_of("one\r", 80), "one\r");
    assert_eq!(summary_of("", 80), "");
    assert_eq!(summary_of("abcdef", 3), "abc…");
}

#[test]
fn the_browser_is_drawn() {
    let mut state = loaded();
    let list = draw_list(&state);
    assert_eq!(list.title, "Entries (2)");
    let row: String = list.items[1][0].iter().map(|s| s.text.as_str()).collect();
    assert_eq!(row, "beta  [preference]");
    assert_eq!(draw_header()[0].text, "Knowledge base");
    assert_eq!(search_title(Mode::List), "Search (press / to focus)");
    assert_eq!(form_title(&state.edit), "New entry");
    assert_eq!(draw_strip(&state.edit).text, "(new)");
    assert!(draw_status(&state).is_none());
    apply_outcome(&mut state, RpcOutcome::Found(Err("down".into())));
    assert_eq!(draw_status(&state).unwrap().text, " • Search failed: down");
    assert_eq!(draw_hints(Mode::Search).len(), 7);
}

#[test]
fn an_unedited_entry_is_handed_in_unchanged() {
    let mut e = entry("e1", "first line\n\n  third line\n");
    e.tags = vec!["preference".into(), "two words".into(), "c++".into()];
    let (content, tags, metadata) = EditForm::from_entry(&e).submit().unwrap();
    assert_eq!(content, e.content);
    assert_eq!(tags, e.tags);
    assert_eq!(metadata, e.metadata);

    e.tags = vec![];
    let (_, tags, _) = EditForm::from_entry(&e).submit().unwrap();
    assert!(tags.is_empty());
}
