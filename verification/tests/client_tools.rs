use adele::client_tools::{
    dispatch, handle_request_voice, handle_say_this, handle_stop_voice, registrations,
    request_voice_registration, say_outcome, say_this_registration, stop_voice_registration,
    ToolEffect, REQUEST_VOICE, SAY_THIS, STOP_VOICE,
};
use adele::voice::AdeleOutput;

fn json(text: &str) -> serde_json::Value {
    serde_json::from_str(text).unwrap()
}

fn args(text: &str) -> serde_json::Value {
    json(&format!("{{\"text\": \"{text}\"}}"))
}

#[test]
fn say_this_while_enabled_speaks_and_reports_spoken() {
    let outcome = handle_say_this(&args("hello there"), true);
    assert_eq!(outcome.effect, ToolEffect::Speak("hello there".to_string()));
    assert_eq!(outcome.result, Ok("spoken".to_string()));
}

#[test]
fn say_this_while_disabled_shows_inline_and_does_not_speak() {
    let outcome = handle_say_this(&args("hello there"), false);
    assert_eq!(
        outcome.effect,
        ToolEffect::ShowDisabled("hello there".to_string())
    );
    let msg = outcome.result.expect("disabled say_this still succeeds");
    assert!(msg.contains("disabled"));
    assert!(msg.contains("not spoken"));
    assert!(!matches!(outcome.effect, ToolEffect::Speak(_)));
}

#[test]
fn say_this_missing_text_is_an_error_not_a_panic() {
    let outcome = handle_say_this(&json("{\"other\": 1}"), true);
    assert_eq!(outcome.effect, ToolEffect::Nothing);
    assert!(outcome.result.is_err());
}

#[test]
fn say_this_non_string_text_is_an_error() {
    let outcome = handle_say_this(&json("{\"text\": 42}"), true);
    assert_eq!(outcome.effect, ToolEffect::Nothing);
    assert!(outcome.result.is_err());
}

#[test]
fn say_this_non_object_payload_is_an_error_not_a_panic() {
    let outcome = handle_say_this(&json("\"just a string\""), true);
    assert_eq!(outcome.effect, ToolEffect::Nothing);
    assert!(outcome.result.is_err());
    let outcome = handle_say_this(&serde_json::Value::Null, false);
    assert!(outcome.result.is_err());
}

#[test]
fn dispatch_routes_say_this() {
    let outcome = dispatch(SAY_THIS, &args("hi"), true);
    assert_eq!(outcome.effect, ToolEffect::Speak("hi".to_string()));
}

#[test]
fn dispatch_unknown_tool_returns_error_result_so_turn_resumes() {
    let outcome = dispatch("delete_everything", &args("ignored"), true);
    assert_eq!(outcome.effect, ToolEffect::Nothing);
    assert!(outcome.result.is_err());
    assert!(outcome.result.unwrap_err().contains("delete_everything"));
}

#[test]
fn registration_has_say_this_name_and_required_text() {
    let reg = say_this_registration();
    assert_eq!(reg.name, SAY_THIS);
    assert!(!reg.description.is_empty());
    let schema: serde_json::Value = serde_json::from_str(&reg.input_schema).unwrap();
    let required = schema.get("required").unwrap();
    assert_eq!(required, &serde_json::from_str::<serde_json::Value>("[\"text\"]").unwrap());
}

#[test]
fn request_voice_sets_adele_on_demand_with_a_result() {
    let outcome = handle_request_voice();
    assert_eq!(
        outcome.effect,
        ToolEffect::SetAdeleOutput(AdeleOutput::OnDemand)
    );
    let msg = outcome
        .result
        .expect("request_voice always returns a result");
    assert!(msg.contains("voice mode on"));
}

#[test]
fn stop_voice_sets_adele_disabled_with_a_result() {
    let outcome = handle_stop_voice();
    assert_eq!(
        outcome.effect,
        ToolEffect::SetAdeleOutput(AdeleOutput::Disabled)
    );
    let msg = outcome.result.expect("stop_voice always returns a result");
    assert!(msg.contains("voice mode off"));
}

#[test]
fn dispatch_routes_request_voice() {
    let outcome = dispatch(REQUEST_VOICE, &json("{}"), false);
    assert_eq!(
        outcome.effect,
        ToolEffect::SetAdeleOutput(AdeleOutput::OnDemand)
    );
    assert!(outcome.result.is_ok());
}

#[test]
fn dispatch_routes_stop_voice() {
    let outcome = dispatch(STOP_VOICE, &json("{}"), true);
    assert_eq!(
        outcome.effect,
        ToolEffect::SetAdeleOutput(AdeleOutput::Disabled)
    );
    assert!(outcome.result.is_ok());
}

#[test]
fn request_voice_with_malformed_args_still_returns_a_result_no_panic() {
    let outcome = dispatch(REQUEST_VOICE, &serde_json::Value::Null, false);
    assert_eq!(
        outcome.effect,
        ToolEffect::SetAdeleOutput(AdeleOutput::OnDemand)
    );
    assert!(outcome.result.is_ok());
}

#[test]
fn say_this_speaks_when_aside_is_spoken() {
    let outcome = handle_say_this(&args("aside"), true);
    assert_eq!(outcome.effect, ToolEffect::Speak("aside".to_string()));
}

#[test]
fn say_this_shows_inline_when_adele_disabled() {
    let outcome = handle_say_this(&args("aside"), false);
    assert_eq!(
        outcome.effect,
        ToolEffect::ShowDisabled("aside".to_string())
    );
    assert!(outcome.result.is_ok());
}

#[test]
fn voice_registrations_have_names_and_descriptions() {
    let req = request_voice_registration();
    assert_eq!(req.name, REQUEST_VOICE);
    assert!(!req.description.is_empty());
    let stop = stop_voice_registration();
    assert_eq!(stop.name, STOP_VOICE);
    assert!(!stop.description.is_empty());
}

#[test]
fn every_tool_is_made_known() {
    let names: Vec<String> = registrations().into_iter().map(|r| r.name).collect();
    assert_eq!(names, vec![SAY_THIS, REQUEST_VOICE, STOP_VOICE]);
}

#[test]
fn spoken_text_is_taken_from_its_escapes() {
    let outcome = handle_say_this(&json("{\"text\": \"a\\nb\\u00e9\"}"), true);
    assert_eq!(outcome.effect, ToolEffect::Speak("a\nbé".to_string()));
}

#[test]
fn text_is_spoken_only_where_asides_are() {
    assert_eq!(
        say_outcome(Some("x".into()), true).effect,
        ToolEffect::Speak("x".into())
    );
    assert_eq!(
        say_outcome(Some("x".into()), false).effect,
        ToolEffect::ShowDisabled("x".into())
    );
    assert_eq!(say_outcome(None, true).effect, ToolEffect::Nothing);
    for tool in [REQUEST_VOICE, STOP_VOICE, "other"] {
        assert!(!matches!(
            dispatch(tool, &args("x"), true).effect,
            ToolEffect::Speak(_)
        ));
    }
}

#[test]
fn levels_cycle() {
    assert_eq!(AdeleOutput::Disabled.next(), AdeleOutput::OnDemand);
    assert_eq!(AdeleOutput::OnDemand.next(), AdeleOutput::Always);
    assert_eq!(AdeleOutput::Always.next(), AdeleOutput::Disabled);
}
