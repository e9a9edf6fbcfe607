//! One prompt without the window: the reply goes to the output as it streams in.

use vstd::prelude::*;
use crate::chat::SignalEvent;
use crate::client_tools::{dispatch, ClientToolCall};
#[allow(unused_imports)]
use crate::client_tools::{dispatched, member_text, ToolOutcome};
use crate::text::{cat2, same};
#[allow(unused_imports)]
use crate::text::{holds_text, stands_at};

verus! {

/// The prompt that waits for its reply.
pub struct Headless {
    pub request_id: String,
    /// Whether a part of the reply has been printed.
    pub streamed: bool,
}

/// What a signal leads to.
pub enum HeadlessStep {
    Wait,
    Print(String),
    /// The last text is printed, and the prompt is done.
    Finish(String),
    Fail(String),
    /// A tool of a local server is called.
    CallHost(ClientToolCall),
    /// A tool call is answered.
    Answer { task_id: String, tool_call_id: String, result: Result<String, String> },
}

/// What a signal leads to. `hosted` says whether a local server has the tool that
/// is called.
pub open spec fn headless_taken(
    before: Headless,
    after: Headless,
    signal: SignalEvent,
    hosted: bool,
    step: HeadlessStep,
) -> bool {
    match signal {
        SignalEvent::Chunk { request_id, chunk } => if request_id@ == before.request_id@ {
            &&& step == HeadlessStep::Print(chunk)
            &&& after == (Headless { streamed: true, ..before })
        } else {
            step is Wait && after == before
        },
        SignalEvent::Complete { request_id, full_response } => after == before
            && if request_id@ == before.request_id@ {
            step matches HeadlessStep::Finish(text) && text@ == (if before.streamed {
                ""@
            } else {
                full_response@
            }) + "\n"@
        } else {
            step is Wait
        },
        SignalEvent::Error { request_id, error } => after == before && if request_id@
            == before.request_id@ {
            step == HeadlessStep::Fail(error)
        } else {
            step is Wait
        },
        SignalEvent::ClientToolCall(call) => after == before && if hosted {
            step == HeadlessStep::CallHost(call)
        } else {
            exists|outcome: ToolOutcome| #[trigger]
                dispatched(
                    outcome,
                    call.tool_name@,
                    member_text(call.arguments, "text"@),
                    false,
                ) && step == (HeadlessStep::Answer {
                    task_id: call.task_id,
                    tool_call_id: call.tool_call_id,
                    result: outcome.result,
                })
        },
        _ => step is Wait && after == before,
    }
}

impl Headless {
    pub fn new(request_id: String) -> (h: Headless)
        ensures
            h == (Headless { request_id, streamed: false }),
    {
        Headless { request_id, streamed: false }
    }

    /// Takes a signal of the daemon.
    pub fn handle(&mut self, signal: SignalEvent, hosted: bool) -> (step: HeadlessStep)
        ensures
            headless_taken(*old(self), *final(self), signal, hosted, step),
    {
        match signal {
            SignalEvent::Chunk { request_id, chunk } => {
                if same(request_id.as_str(), self.request_id.as_str()) {
                    self.streamed = true;
                    HeadlessStep::Print(chunk)
                } else {
                    HeadlessStep::Wait
                }
            },
            SignalEvent::Complete { request_id, full_response } => {
                if same(request_id.as_str(), self.request_id.as_str()) {
                    let text = if self.streamed {
                        "".to_owned()
                    } else {
                        full_response
                    };
                    HeadlessStep::Finish(cat2(text.as_str(), "\n"))
                } else {
                    HeadlessStep::Wait
                }
            },
            SignalEvent::Error { request_id, error } => {
                if same(request_id.as_str(), self.request_id.as_str()) {
                    HeadlessStep::Fail(error)
                } else {
                    HeadlessStep::Wait
                }
            },
            SignalEvent::ClientToolCall(call) => {
                if hosted {
                    HeadlessStep::CallHost(call)
                } else {
                    let outcome = dispatch(
                        call.tool_name.as_str(),
                        &call.arguments,
                        false,
                    );
                    let ghost decided = outcome;
                    assert(dispatched(
                        decided,
                        call.tool_name@,
                        member_text(call.arguments, "text"@),
                        false,
                    ));
                    HeadlessStep::Answer {
                        task_id: call.task_id,
                        tool_call_id: call.tool_call_id,
                        result: outcome.result,
                    }
                }
            },
            _ => HeadlessStep::Wait,
        }
    }
}

/// The title of the conversation that a prompt without the window runs in.
pub fn headless_title() -> (s: &'static str)
    ensures
        s@ == "adele --prompt"@,
{
    "adele --prompt"
}

/// What can fail before the reply.
#[derive(Debug, Clone, Copy, PartialEq, Eq, Structural)]
pub enum HeadlessFailure {
    Connect,
    CreateConversation,
    SendPrompt,
}

pub open spec fn failure_text(failure: HeadlessFailure) -> Seq<char> {
    match failure {
        HeadlessFailure::Connect => "connection failed: "@,
        HeadlessFailure::CreateConversation => "could not create conversation: "@,
        HeadlessFailure::SendPrompt => "could not send prompt: "@,
    }
}

impl HeadlessFailure {
    /// What the user is told.
    pub fn text(self, error: &str) -> (s: String)
        ensures
            s@ == failure_text(self) + error@,
    {
        let what = match self {
            HeadlessFailure::Connect => "connection failed: ",
            HeadlessFailure::CreateConversation => "could not create conversation: ",
            HeadlessFailure::SendPrompt => "could not send prompt: ",
        };
        cat2(what, error)
    }
}

/// Every tool call is answered, by a local server or here.
pub proof fn law_tool_calls_are_answered(
    before: Headless,
    after: Headless,
    call: ClientToolCall,
    hosted: bool,
    step: HeadlessStep,
)
    requires
        headless_taken(before, after, SignalEvent::ClientToolCall(call), hosted, step),
    ensures
        step is CallHost || step is Answer,
        step matches HeadlessStep::Answer { task_id, tool_call_id, .. } ==> task_id
            == call.task_id && tool_call_id == call.tool_call_id,
{
}

/// What is printed is the reply: where parts of it were printed as they came, the
/// whole is not printed again.
pub proof fn law_reply_is_not_printed_twice(
    before: Headless,
    after: Headless,
    request_id: String,
    full_response: String,
    hosted: bool,
    text: String,
)
    requires
        headless_taken(
            before,
            after,
            SignalEvent::Complete { request_id, full_response },
            hosted,
            HeadlessStep::Finish(text),
        ),
        before.streamed,
    ensures
        text@ == "\n"@,
{
    reveal_strlit("");
    assert(""@ + "\n"@ =~= "\n"@);
}

/// A part of the own reply is printed as it is, whatever was printed before; a part
/// of another reply is not.
pub proof fn law_chunks_are_printed(
    before: Headless,
    after: Headless,
    request_id: String,
    chunk: String,
    hosted: bool,
    step: HeadlessStep,
)
    requires
        headless_taken(before, after, SignalEvent::Chunk { request_id, chunk }, hosted, step),
    ensures
        request_id@ == before.request_id@ ==> (step matches HeadlessStep::Print(text) && text
            == chunk),
        request_id@ != before.request_id@ ==> step is Wait,
        after.request_id == before.request_id,
{
}

/// What a step writes to the output.
pub open spec fn written(step: HeadlessStep) -> Seq<char> {
    match step {
        HeadlessStep::Print(text) => text@,
        HeadlessStep::Finish(text) => text@,
        _ => Seq::<char>::empty(),
    }
}

/// What steps write to the output, one after the other.
pub open spec fn output(steps: Seq<HeadlessStep>) -> Seq<char>
    decreases steps.len(),
{
    if steps.len() == 0 {
        Seq::<char>::empty()
    } else {
        output(steps.drop_last()) + written(steps.last())
    }
}

/// The signal is a part of the reply to this request.
pub open spec fn is_part(signal: SignalEvent, id: Seq<char>) -> bool {
    signal matches SignalEvent::Chunk { request_id, .. } && request_id@ == id
}

/// The parts of the reply to a request among signals, one after the other.
pub open spec fn parts(signals: Seq<SignalEvent>, id: Seq<char>) -> Seq<char>
    decreases signals.len(),
{
    if signals.len() == 0 {
        Seq::<char>::empty()
    } else {
        parts(signals.drop_last(), id) + (match signals.last() {
            SignalEvent::Chunk { request_id, chunk } => if request_id@ == id {
                chunk@
            } else {
                Seq::<char>::empty()
            },
            _ => Seq::<char>::empty(),
        })
    }
}

/// `states` are the states of a prompt while signals come in, `steps` what they lead
/// to.
pub open spec fn headless_run(
    states: Seq<Headless>,
    signals: Seq<SignalEvent>,
    hosted: Seq<bool>,
    steps: Seq<HeadlessStep>,
) -> bool {
    &&& states.len() == signals.len() + 1
    &&& hosted.len() == signals.len()
    &&& steps.len() == signals.len()
    &&& forall|i: int|
        0 <= i < signals.len() ==> headless_taken(
            #[trigger] states[i],
            states[i + 1],
            signals[i],
            hosted[i],
            steps[i],
        )
}

/// The signal ends the reply to this request.
pub open spec fn is_end(signal: SignalEvent, id: Seq<char>) -> bool {
    signal matches SignalEvent::Complete { request_id, .. } && request_id@ == id
}

proof fn lemma_parts_are_written(
    states: Seq<Headless>,
    signals: Seq<SignalEvent>,
    hosted: Seq<bool>,
    steps: Seq<HeadlessStep>,
    id: Seq<char>,
)
    requires
        headless_run(states, signals, hosted, steps),
        states[0].request_id@ == id,
        forall|i: int| 0 <= i < signals.len() ==> !is_end(#[trigger] signals[i], id),
    ensures
        output(steps) == parts(signals, id),
        states.last().request_id@ == id,
        states.last().streamed <==> states[0].streamed || exists|i: int|
            0 <= i < signals.len() && is_part(#[trigger] signals[i], id),
    decreases signals.len(),
{
    if signals.len() > 0 {
        let n = signals.len() - 1;
        let before = states.drop_last();
        let earlier = signals.drop_last();
        assert forall|i: int| 0 <= i < n implies headless_taken(
            #[trigger] before[i],
            before[i + 1],
            earlier[i],
            hosted.drop_last()[i],
            steps.drop_last()[i],
        ) by {
            assert(headless_taken(states[i], states[i + 1], signals[i], hosted[i], steps[i]));
        }
        lemma_parts_are_written(before, earlier, hosted.drop_last(), steps.drop_last(), id);
        assert(headless_taken(states[n], states[n + 1], signals[n], hosted[n], steps[n]));
        assert(!is_end(signals[n], id));
        assert(output(steps) =~= parts(signals, id));
        if exists|i: int| 0 <= i < signals.len() && is_part(#[trigger] signals[i], id) {
            let i = choose|i: int| 0 <= i < signals.len() && is_part(#[trigger] signals[i], id);
            if i < n {
                assert(is_part(earlier[i], id));
            }
        }
        if exists|i: int| 0 <= i < earlier.len() && is_part(#[trigger] earlier[i], id) {
            let i = choose|i: int| 0 <= i < earlier.len() && is_part(#[trigger] earlier[i], id);
            assert(is_part(signals[i], id));
        }
    }
}

/// The output of a prompt is its reply and a line feed: the parts of the reply as
/// they came, one after the other, whatever else came between; or the whole reply
/// where no part came.
pub proof fn law_output_is_the_reply(
    states: Seq<Headless>,
    signals: Seq<SignalEvent>,
    hosted: Seq<bool>,
    steps: Seq<HeadlessStep>,
    request_id: String,
    full_response: String,
)
    requires
        headless_run(states, signals, hosted, steps),
        signals.len() > 0,
        !states[0].streamed,
        states[0].request_id@ == request_id@,
        signals.last() == (SignalEvent::Complete { request_id, full_response }),
        forall|i: int|
            0 <= i < signals.len() - 1 ==> !is_end(#[trigger] signals[i], request_id@),
    ensures
        steps.last() is Finish,
        (exists|i: int| 0 <= i < signals.len() && is_part(#[trigger] signals[i], request_id@))
            ==> output(steps) == parts(signals, request_id@).push('\n'),
        (forall|i: int| 0 <= i < signals.len() ==> !is_part(#[trigger] signals[i], request_id@))
            ==> output(steps) == full_response@.push('\n'),
{
    reveal_strlit("\n");
    reveal_strlit("");
    let id = request_id@;
    let n = signals.len() - 1;
    let before = states.drop_last();
    let earlier = signals.drop_last();
    assert forall|i: int| 0 <= i < n implies headless_taken(
        #[trigger] before[i],
        before[i + 1],
        earlier[i],
        hosted.drop_last()[i],
        steps.drop_last()[i],
    ) by {
        assert(headless_taken(states[i], states[i + 1], signals[i], hosted[i], steps[i]));
    }
    assert forall|i: int| 0 <= i < n implies !is_end(#[trigger] earlier[i], id) by {
        assert(!is_end(signals[i], id));
    }
    lemma_parts_are_written(before, earlier, hosted.drop_last(), steps.drop_last(), id);
    assert(headless_taken(states[n], states[n + 1], signals[n], hosted[n], steps[n]));
    assert(before.last() == states[n]);
    assert(parts(signals, id) =~= parts(earlier, id));
    assert(signals[n] == signals.last());
    if exists|i: int| 0 <= i < signals.len() && is_part(#[trigger] signals[i], id) {
        let i = choose|i: int| 0 <= i < signals.len() && is_part(#[trigger] signals[i], id);
        assert(is_part(earlier[i], id));
        assert(output(steps) =~= parts(signals, id).push('\n'));
    } else {
        assert forall|i: int| 0 <= i < earlier.len() implies !is_part(#[trigger] earlier[i], id) by {
            assert(!is_part(signals[i], id));
        }
        lemma_no_parts(earlier, id);
        assert(output(steps) =~= full_response@.push('\n'));
    }
}

proof fn lemma_no_parts(signals: Seq<SignalEvent>, id: Seq<char>)
    requires
        forall|i: int| 0 <= i < signals.len() ==> !is_part(#[trigger] signals[i], id),
    ensures
        parts(signals, id).len() == 0,
    decreases signals.len(),
{
    if signals.len() > 0 {
        let earlier = signals.drop_last();
        assert forall|i: int| 0 <= i < earlier.len() implies !is_part(#[trigger] earlier[i], id) by {
            assert(!is_part(signals[i], id));
        }
        assert(!is_part(signals[signals.len() - 1], id));
        lemma_no_parts(earlier, id);
    }
}

/// The prompt ends with the signals of its own request alone: it is done when its
/// reply is complete, and fails with the error of its own.
pub proof fn law_only_the_own_request_ends(
    before: Headless,
    after: Headless,
    signal: SignalEvent,
    hosted: bool,
    step: HeadlessStep,
)
    requires
        headless_taken(before, after, signal, hosted, step),
    ensures
        step is Finish <==> (signal matches SignalEvent::Complete { request_id, .. } && request_id@
            == before.request_id@),
        step is Fail <==> (signal matches SignalEvent::Error { request_id, .. } && request_id@
            == before.request_id@),
        signal matches SignalEvent::Error { error, .. } ==> (step matches HeadlessStep::Fail(text)
            ==> text == error),
        step is Print <==> is_part(signal, before.request_id@),
        signal matches SignalEvent::ClientToolCall(call) ==> (hosted ==> step
            == HeadlessStep::CallHost(call)),
        step is CallHost ==> hosted && signal is ClientToolCall,
        step is Answer ==> !hosted && signal is ClientToolCall,
        after.request_id == before.request_id,
{
}

/// What failed is told apart: the connection, the conversation and the prompt each have
/// their own words.
pub proof fn law_failures_are_told_apart(a: HeadlessFailure, b: HeadlessFailure)
    ensures
        failure_text(a) == failure_text(b) ==> a == b,
        a == HeadlessFailure::Connect ==> holds_text(failure_text(a), "connection"@),
        a == HeadlessFailure::CreateConversation ==> holds_text(failure_text(a), "conversation"@),
        a == HeadlessFailure::SendPrompt ==> holds_text(failure_text(a), "prompt"@),
{
    reveal_strlit("connection failed: ");
    reveal_strlit("could not create conversation: ");
    reveal_strlit("could not send prompt: ");
    reveal_strlit("connection");
    reveal_strlit("conversation");
    reveal_strlit("prompt");
    assert("connection failed: "@.len() == 19 && "could not create conversation: "@.len() == 31);
    assert("could not send prompt: "@.len() == 23);
    let text = failure_text(a);
    match a {
        HeadlessFailure::Connect => {
            assert(text.subrange(0, 10) =~= "connection"@);
            assert(stands_at(text, "connection"@, 0));
        },
        HeadlessFailure::CreateConversation => {
            assert(text.subrange(17, 29) =~= "conversation"@);
            assert(stands_at(text, "conversation"@, 17));
        },
        HeadlessFailure::SendPrompt => {
            assert(text.subrange(15, 21) =~= "prompt"@);
            assert(stands_at(text, "prompt"@, 15));
        },
    }
}

/// Without the window nothing is spoken: a text that the assistant asks to have spoken is
/// answered as not spoken, and the answer goes to the call that it belongs to.
pub proof fn law_nothing_is_spoken_without_the_window(
    before: Headless,
    after: Headless,
    call: ClientToolCall,
    step: HeadlessStep,
)
    requires
        headless_taken(before, after, SignalEvent::ClientToolCall(call), false, step),
    ensures
        step matches HeadlessStep::Answer { task_id, tool_call_id, result } && task_id
            == call.task_id && tool_call_id == call.tool_call_id && (call.tool_name@
            == "say_this"@ ==> (member_text(call.arguments, "text"@) is None <==> result is Err) && (
        result matches Ok(m) ==> holds_text(m@, "not spoken"@))),
        after == before,
{
    reveal_strlit("not spoken");
    reveal_strlit(
        "speech mode is disabled in this conversation; the text was shown to the user, not spoken",
    );
    let text = "speech mode is disabled in this conversation; the text was shown to the user, not spoken"@;
    assert(text.len() == 88);
    assert(text.subrange(78, 88) =~= "not spoken"@);
    assert(stands_at(text, "not spoken"@, 78));
}

} // verus!
