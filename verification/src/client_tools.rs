//! Tools that the assistant can call on this client: to speak, and to enter or
//! leave voice mode.
//!
//! Every call is answered, whatever it asks for, so that the turn that waits for
//! the answer goes on.

use vstd::prelude::*;
use serde_json::Value;
use crate::text::{cat3, same};
#[allow(unused_imports)]
use crate::text::{holds_text, law_text_is_held, opt_text, stands_at};
use crate::voice::AdeleOutput;

verus! {

/// The tool that speaks a text.
pub const SAY_THIS: &'static str = "say_this";

/// The tool that enters voice mode.
pub const REQUEST_VOICE: &'static str = "request_voice";

/// The tool that leaves voice mode.
pub const STOP_VOICE: &'static str = "stop_voice";

/// A call of the assistant, with its arguments as JSON.
#[derive(Debug, PartialEq, Eq)]
pub struct ClientToolCall {
    pub task_id: String,
    pub conversation_id: String,
    pub tool_call_id: String,
    pub tool_name: String,
    pub arguments: Value,
}

/// What a call leads to, and the answer to it.
#[derive(Debug, PartialEq, Eq)]
pub struct ToolOutcome {
    pub effect: ToolEffect,
    pub result: Result<String, String>,
}

#[derive(Debug, PartialEq, Eq)]
pub enum ToolEffect {
    /// The text is spoken.
    Speak(String),
    /// Speech is off: the text is shown.
    ShowDisabled(String),
    /// How much Adele speaks from now on in the conversation of the call.
    SetAdeleOutput(AdeleOutput),
    Nothing,
}

/// A tool as it is made known to the daemon. The schema of its arguments is JSON
/// text.
#[derive(Debug, PartialEq, Eq)]
pub struct ClientToolRegistration {
    pub name: String,
    pub description: String,
    pub input_schema: String,
}

/// The text of a member of a JSON object: none where the value is no object, or
/// the member is missing or no string.
pub open spec fn member_text(value: Value, key: Seq<char>) -> Option<Seq<char>> {
    match json_member(value, key) {
        Some(member) => json_text(member),
        None => None,
    }
}

/// The member of a JSON object.
pub uninterp spec fn json_member(value: Value, key: Seq<char>) -> Option<Value>;

/// The text of a JSON string.
pub uninterp spec fn json_text(value: Value) -> Option<Seq<char>>;

/// `Value::get` looks a member up: none where the value is no object, or has no
/// such member. The result is named.
#[verifier::external_body]
fn member_of<'a>(value: &'a Value, key: &str) -> (member: Option<&'a Value>)
    ensures
        match member {
            Some(m) => json_member(*value, key@) == Some(*m),
            None => json_member(*value, key@) is None,
        },
{
    value.get(key)
}

/// `Value::as_str` takes a string's text: none where the value is no string. The
/// result is named.
#[verifier::external_body]
fn text_of(value: &Value) -> (text: Option<String>)
    ensures
        opt_text(text) == json_text(*value),
{
    value.as_str().map(|text| text.to_owned())
}

/// The text of a member of a JSON object.
fn text_member(value: &Value, key: &str) -> (text: Option<String>)
    ensures
        opt_text(text) == member_text(*value, key@),
{
    match member_of(value, key) {
        Some(member) => text_of(member),
        None => None,
    }
}

/// The outcome of a call that is to speak `text`.
pub open spec fn spoken_or_shown(outcome: ToolOutcome, text: Option<Seq<char>>, spoken: bool) -> bool {
    match text {
        None => {
            &&& outcome.effect is Nothing
            &&& outcome.result matches Err(e)
                && e@ == "say_this requires a string `text` argument"@
        },
        Some(t) => if spoken {
            &&& outcome.effect matches ToolEffect::Speak(s) && s@ == t
            &&& outcome.result matches Ok(m) && m@ == "spoken"@
        } else {
            &&& outcome.effect matches ToolEffect::ShowDisabled(s) && s@ == t
            &&& outcome.result matches Ok(m) && m@
                == "speech mode is disabled in this conversation; the text was shown to the user, not spoken"@
        },
    }
}

/// The outcome of a call that is to speak `text`, by whether asides are spoken.
pub fn say_outcome(text: Option<String>, say_this_spoken: bool) -> (outcome: ToolOutcome)
    ensures
        spoken_or_shown(outcome, opt_text(text), say_this_spoken),
{
    match text {
        None => ToolOutcome {
            effect: ToolEffect::Nothing,
            result: Err("say_this requires a string `text` argument".to_owned()),
        },
        Some(t) => if say_this_spoken {
            ToolOutcome { effect: ToolEffect::Speak(t), result: Ok("spoken".to_owned()) }
        } else {
            ToolOutcome {
                effect: ToolEffect::ShowDisabled(t),
                result: Ok(
                    "speech mode is disabled in this conversation; the text was shown to the user, not spoken".to_owned(),
                ),
            }
        },
    }
}

/// A call of `say_this`: its argument `text` is spoken, or shown where asides
/// are not spoken.
pub fn handle_say_this(arguments: &Value, say_this_spoken: bool) -> (outcome: ToolOutcome)
    ensures
        spoken_or_shown(outcome, member_text(*arguments, "text"@), say_this_spoken),
{
    say_outcome(text_member(arguments, "text"), say_this_spoken)
}

/// The outcome of entering voice mode.
pub open spec fn enters_voice(outcome: ToolOutcome) -> bool {
    &&& outcome.effect == ToolEffect::SetAdeleOutput(AdeleOutput::OnDemand)
    &&& outcome.result matches Ok(m) && m@
        == "voice mode on (on-demand): your written reply is shown as text and not read aloud; speak to the user by calling say_this, kept brief and conversational"@
}

/// A call of `request_voice`.
pub fn handle_request_voice() -> (outcome: ToolOutcome)
    ensures
        enters_voice(outcome),
{
    ToolOutcome {
        effect: ToolEffect::SetAdeleOutput(AdeleOutput::OnDemand),
        result: Ok(
            "voice mode on (on-demand): your written reply is shown as text and not read aloud; speak to the user by calling say_this, kept brief and conversational".to_owned(),
        ),
    }
}

/// The outcome of leaving voice mode.
pub open spec fn leaves_voice(outcome: ToolOutcome) -> bool {
    &&& outcome.effect == ToolEffect::SetAdeleOutput(AdeleOutput::Disabled)
    &&& outcome.result matches Ok(m) && m@
        == "voice mode off: this conversation is back to text-only"@
}

/// A call of `stop_voice`.
pub fn handle_stop_voice() -> (outcome: ToolOutcome)
    ensures
        leaves_voice(outcome),
{
    ToolOutcome {
        effect: ToolEffect::SetAdeleOutput(AdeleOutput::Disabled),
        result: Ok("voice mode off: this conversation is back to text-only".to_owned()),
    }
}

/// The outcome of a call by the tool's name; `text` is what a call of `say_this`
/// is to speak. A tool that is not known leads to nothing but an error.
pub open spec fn dispatched(
    outcome: ToolOutcome,
    tool_name: Seq<char>,
    text: Option<Seq<char>>,
    spoken: bool,
) -> bool {
    if tool_name == SAY_THIS@ {
        spoken_or_shown(outcome, text, spoken)
    } else if tool_name == REQUEST_VOICE@ {
        enters_voice(outcome)
    } else if tool_name == STOP_VOICE@ {
        leaves_voice(outcome)
    } else {
        &&& outcome.effect is Nothing
        &&& outcome.result matches Err(e) && e@ == "unknown client tool `"@ + tool_name + "`"@
    }
}

/// Decides what a call leads to.
pub fn dispatch(tool_name: &str, arguments: &Value, say_this_spoken: bool) -> (outcome: ToolOutcome)
    ensures
        dispatched(
            outcome,
            tool_name@,
            member_text(*arguments, "text"@),
            say_this_spoken,
        ),
{
    if same(tool_name, SAY_THIS) {
        handle_say_this(arguments, say_this_spoken)
    } else if same(tool_name, REQUEST_VOICE) {
        handle_request_voice()
    } else if same(tool_name, STOP_VOICE) {
        handle_stop_voice()
    } else {
        ToolOutcome {
            effect: ToolEffect::Nothing,
            result: Err(cat3("unknown client tool `", tool_name, "`")),
        }
    }
}

/// The registration of `say_this`.
pub open spec fn registers_say_this(r: ClientToolRegistration) -> bool {
    &&& r.name@ == SAY_THIS@
    &&& r.description@
            == "Speak a short piece of text aloud to the user through their speakers. Use for brief spoken asides; the user's reply still arrives as text."@
    &&& r.input_schema@
            == "{\"type\":\"object\",\"properties\":{\"text\":{\"type\":\"string\",\"description\":\"The text to speak aloud.\"}},\"required\":[\"text\"]}"@
}

pub fn say_this_registration() -> (r: ClientToolRegistration)
    ensures
        registers_say_this(r),
{
    ClientToolRegistration {
        name: SAY_THIS.to_owned(),
        description: "Speak a short piece of text aloud to the user through their speakers. Use for brief spoken asides; the user's reply still arrives as text.".to_owned(),
        input_schema: "{\"type\":\"object\",\"properties\":{\"text\":{\"type\":\"string\",\"description\":\"The text to speak aloud.\"}},\"required\":[\"text\"]}".to_owned(),
    }
}

/// The registration of `request_voice`.
pub open spec fn registers_request_voice(r: ClientToolRegistration) -> bool {
    &&& r.name@ == REQUEST_VOICE@
    &&& r.description@
            == "Switch this conversation into spoken (on-demand) voice mode (the user asked to talk by voice). Your written reply stays text; to speak, call say_this with a brief spoken version. Call when the user says something like \"let's talk by voice\" or \"read your replies to me\". No arguments."@
    &&& r.input_schema@ == "{\"type\":\"object\",\"properties\":{}}"@
}

pub fn request_voice_registration() -> (r: ClientToolRegistration)
    ensures
        registers_request_voice(r),
{
    ClientToolRegistration {
        name: REQUEST_VOICE.to_owned(),
        description: "Switch this conversation into spoken (on-demand) voice mode (the user asked to talk by voice). Your written reply stays text; to speak, call say_this with a brief spoken version. Call when the user says something like \"let's talk by voice\" or \"read your replies to me\". No arguments.".to_owned(),
        input_schema: "{\"type\":\"object\",\"properties\":{}}".to_owned(),
    }
}

/// The registration of `stop_voice`.
pub open spec fn registers_stop_voice(r: ClientToolRegistration) -> bool {
    &&& r.name@ == STOP_VOICE@
    &&& r.description@
            == "Leave voice mode; this conversation goes back to text-only (replies are no longer read aloud). Call when the user says something like \"stop talking\" or \"let's go back to text\". No arguments."@
    &&& r.input_schema@ == "{\"type\":\"object\",\"properties\":{}}"@
}

pub fn stop_voice_registration() -> (r: ClientToolRegistration)
    ensures
        registers_stop_voice(r),
{
    ClientToolRegistration {
        name: STOP_VOICE.to_owned(),
        description: "Leave voice mode; this conversation goes back to text-only (replies are no longer read aloud). Call when the user says something like \"stop talking\" or \"let's go back to text\". No arguments.".to_owned(),
        input_schema: "{\"type\":\"object\",\"properties\":{}}".to_owned(),
    }
}

/// The tools of this client, in the order in which they are made known.
pub fn registrations() -> (all: Vec<ClientToolRegistration>)
    ensures
        all@.len() == 3,
        registers_say_this(all@[0]),
        registers_request_voice(all@[1]),
        registers_stop_voice(all@[2]),
{
    vec![say_this_registration(), request_voice_registration(), stop_voice_registration()]
}

/// Text is spoken only where asides are spoken, and only by `say_this`.
pub proof fn law_nothing_else_speaks(
    outcome: ToolOutcome,
    tool_name: Seq<char>,
    text: Option<Seq<char>>,
    spoken: bool,
)
    requires
        dispatched(outcome, tool_name, text, spoken),
        outcome.effect is Speak,
    ensures
        tool_name == SAY_THIS@,
        spoken,
        text is Some,
{
}

/// A call of `say_this` speaks its text where asides are spoken and shows it where they
/// are not; a call without a text is an error. The text is never lost or changed.
pub proof fn law_said_text_reaches_the_user(
    outcome: ToolOutcome,
    text: Option<Seq<char>>,
    spoken: bool,
)
    requires
        dispatched(outcome, "say_this"@, text, spoken),
    ensures
        text matches Some(t) ==> (spoken ==> (outcome.effect matches ToolEffect::Speak(s) && s@ == t)),
        text matches Some(t) ==> (!spoken ==> (outcome.effect matches ToolEffect::ShowDisabled(s)
            && s@ == t)),
        text is None <==> outcome.result is Err,
        text is None ==> outcome.effect is Nothing,
{
}

/// The assistant enters voice mode by one tool and leaves it by the other, whatever the
/// arguments say: from then on it speaks its asides, or is silent.
pub proof fn law_voice_mode_is_entered_and_left(
    entering: ToolOutcome,
    leaving: ToolOutcome,
    text: Option<Seq<char>>,
    spoken: bool,
)
    requires
        dispatched(entering, "request_voice"@, text, spoken),
        dispatched(leaving, "stop_voice"@, text, spoken),
    ensures
        entering.effect == ToolEffect::SetAdeleOutput(AdeleOutput::OnDemand),
        leaving.effect == ToolEffect::SetAdeleOutput(AdeleOutput::Disabled),
        entering.result is Ok,
        leaving.result is Ok,
        entering.result matches Ok(m) ==> holds_text(m@, "voice mode on"@),
        leaving.result matches Ok(m) ==> holds_text(m@, "voice mode off"@),
{
    reveal_strlit("say_this");
    reveal_strlit("request_voice");
    reveal_strlit("stop_voice");
    assert("say_this"@.len() == 8 && "request_voice"@.len() == 13 && "stop_voice"@.len() == 10);
    reveal_strlit("voice mode on");
    reveal_strlit("voice mode off");
    reveal_strlit(
        "voice mode on (on-demand): your written reply is shown as text and not read aloud; speak to the user by calling say_this, kept brief and conversational",
    );
    reveal_strlit("voice mode off: this conversation is back to text-only");
    let on = entering.result->Ok_0@;
    let off = leaving.result->Ok_0@;
    assert(on.subrange(0, 13) =~= "voice mode on"@);
    assert(stands_at(on, "voice mode on"@, 0));
    assert(off.subrange(0, 14) =~= "voice mode off"@);
    assert(stands_at(off, "voice mode off"@, 0));
}

/// A tool that is not known changes nothing, and the error names it.
pub proof fn law_unknown_tools_are_named(
    outcome: ToolOutcome,
    tool_name: Seq<char>,
    text: Option<Seq<char>>,
    spoken: bool,
)
    requires
        dispatched(outcome, tool_name, text, spoken),
        tool_name != "say_this"@,
        tool_name != "request_voice"@,
        tool_name != "stop_voice"@,
    ensures
        outcome.effect is Nothing,
        outcome.result matches Err(e) && holds_text(e@, tool_name),
{
    law_text_is_held("unknown client tool `"@, tool_name, "`"@);
}

/// Each tool is made known under the name by which it is called, with a description and
/// the schema of its arguments.
pub proof fn law_tools_are_known_by_their_names(
    say: ClientToolRegistration,
    request: ClientToolRegistration,
    stop: ClientToolRegistration,
)
    requires
        registers_say_this(say),
        registers_request_voice(request),
        registers_stop_voice(stop),
    ensures
        say.name@ == "say_this"@,
        request.name@ == "request_voice"@,
        stop.name@ == "stop_voice"@,
        say.description@.len() > 0 && request.description@.len() > 0 && stop.description@.len() > 0,
        request.input_schema@ == stop.input_schema@,
        say.input_schema@ != request.input_schema@,
{
    reveal_strlit(
        "Speak a short piece of text aloud to the user through their speakers. Use for brief spoken asides; the user's reply still arrives as text.",
    );
    reveal_strlit(
        "Switch this conversation into spoken (on-demand) voice mode (the user asked to talk by voice). Your written reply stays text; to speak, call say_this with a brief spoken version. Call when the user says something like \"let's talk by voice\" or \"read your replies to me\". No arguments.",
    );
    reveal_strlit(
        "Leave voice mode; this conversation goes back to text-only (replies are no longer read aloud). Call when the user says something like \"stop talking\" or \"let's go back to text\". No arguments.",
    );
    reveal_strlit(
        "{\"type\":\"object\",\"properties\":{\"text\":{\"type\":\"string\",\"description\":\"The text to speak aloud.\"}},\"required\":[\"text\"]}",
    );
    reveal_strlit("{\"type\":\"object\",\"properties\":{}}");
    assert(say.input_schema@.len() > request.input_schema@.len());
}

} // verus!
