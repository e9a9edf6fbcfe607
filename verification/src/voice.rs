//! When Adele speaks.

use vstd::prelude::*;
#[allow(unused_imports)]
use crate::text::texts;

verus! {

/// How much Adele speaks in a conversation.
#[derive(Debug, Clone, Copy, PartialEq, Eq, Structural)]
pub enum AdeleOutput {
    /// Never.
    Disabled,
    /// Asides only.
    OnDemand,
    /// Every reply.
    Always,
}

impl AdeleOutput {
    pub open spec fn successor(self) -> AdeleOutput {
        match self {
            AdeleOutput::Disabled => AdeleOutput::OnDemand,
            AdeleOutput::OnDemand => AdeleOutput::Always,
            AdeleOutput::Always => AdeleOutput::Disabled,
        }
    }

    /// The next level, in a circle.
    pub fn next(self) -> (level: AdeleOutput)
        ensures
            level == self.successor(),
    {
        match self {
            AdeleOutput::Disabled => AdeleOutput::OnDemand,
            AdeleOutput::OnDemand => AdeleOutput::Always,
            AdeleOutput::Always => AdeleOutput::Disabled,
        }
    }
}

/// Three steps come back to the same level, and no fewer do.
pub proof fn law_levels_cycle(level: AdeleOutput)
    ensures
        level.successor().successor().successor() == level,
        level.successor() != level,
        level.successor().successor() != level,
{
}

/// What turns a sentence into sound.
#[derive(Debug, Clone, Copy, PartialEq, Eq, Structural)]
pub enum Speaker {
    /// The voice daemon, which keeps its models warm.
    Daemon,
    /// The engine inside this process.
    Embedded,
}

/// The daemon speaks where it is there, else the engine inside this process.
pub open spec fn speaker_of(daemon: bool, embedded: bool) -> Option<Speaker> {
    if daemon {
        Some(Speaker::Daemon)
    } else if embedded {
        Some(Speaker::Embedded)
    } else {
        None
    }
}

/// A text that is being read aloud, one sentence at a time, by one speaker.
pub struct Utterance {
    speaker: Option<Speaker>,
    sentences: Vec<String>,
    at: usize,
}

impl Utterance {
    /// Who speaks.
    pub closed spec fn spoken_by(self) -> Option<Speaker> {
        self.speaker
    }

    /// The sentences that are still to be spoken. There are none where nobody
    /// speaks.
    pub closed spec fn rest(self) -> Seq<Seq<char>> {
        if self.speaker is Some && self.at <= self.sentences@.len() {
            texts(self.sentences@.skip(self.at as int))
        } else {
            Seq::<Seq<char>>::empty()
        }
    }

    /// The next sentence and its speaker.
    pub fn next(&self) -> (n: Option<(Speaker, &str)>)
        ensures
            n is Some <==> self.rest().len() > 0,
            n matches Some((speaker, sentence)) ==> self.spoken_by() == Some(speaker) && sentence@
                == self.rest()[0],
    {
        match self.speaker {
            Some(speaker) => if self.at < self.sentences.len() {
                Some((speaker, self.sentences[self.at].as_str()))
            } else {
                None
            },
            None => None,
        }
    }

    /// The sentence was spoken, or it could not be.
    pub fn said(&mut self, ok: bool)
        ensures
            final(self).spoken_by() == old(self).spoken_by(),
            final(self).rest() == after(old(self).rest(), ok),
    {
        if ok && self.at < self.sentences.len() {
            self.at = self.at + 1;
        } else {
            self.at = self.sentences.len();
        }
        assert(self.rest() =~= after(old(self).rest(), ok));
    }
}

/// What is left to say after a sentence. One that could not be spoken ends the
/// utterance.
pub open spec fn after(rest: Seq<Seq<char>>, ok: bool) -> Seq<Seq<char>> {
    if ok && rest.len() > 0 {
        rest.drop_first()
    } else {
        Seq::<Seq<char>>::empty()
    }
}

/// Begins to read `sentences` aloud. Who speaks is settled once, for all of them.
pub fn speak_text(sentences: Vec<String>, daemon: bool, embedded: bool) -> (u: Utterance)
    ensures
        u.spoken_by() == speaker_of(daemon, embedded),
        u.rest() == if daemon || embedded {
            texts(sentences@)
        } else {
            Seq::<Seq<char>>::empty()
        },
{
    let speaker = if daemon {
        Some(Speaker::Daemon)
    } else if embedded {
        Some(Speaker::Embedded)
    } else {
        None
    };
    assert(sentences@.skip(0) =~= sentences@);
    Utterance { speaker, sentences, at: 0 }
}

/// The sentences that are handed to the speaker, given how each of them went.
pub open spec fn handed_out(rest: Seq<Seq<char>>, went: Seq<bool>) -> Seq<Seq<char>>
    decreases went.len(),
{
    if rest.len() == 0 || went.len() == 0 {
        Seq::<Seq<char>>::empty()
    } else {
        seq![rest[0]] + handed_out(after(rest, went[0]), went.drop_first())
    }
}

/// An utterance is spoken in order: the speaker gets its first sentences, and
/// all of them where none fails.
pub proof fn law_sentences_keep_their_order(rest: Seq<Seq<char>>, went: Seq<bool>)
    ensures
        handed_out(rest, went).is_prefix_of(rest),
        (went.len() >= rest.len() && forall|i: int| 0 <= i < went.len() ==> went[i])
            ==> handed_out(rest, went) == rest,
    decreases went.len(),
{
    if rest.len() > 0 && went.len() > 0 {
        law_sentences_keep_their_order(after(rest, went[0]), went.drop_first());
        let tail = handed_out(after(rest, went[0]), went.drop_first());
        assert(tail.len() <= after(rest, went[0]).len());
        assert forall|i: int| 0 <= i < tail.len() implies tail[i] == rest[i + 1] by {
            assert(tail[i] == after(rest, went[0])[i]);
        }
        assert(handed_out(rest, went) =~= rest.take(handed_out(rest, went).len() as int));
        if went.len() >= rest.len() && forall|i: int| 0 <= i < went.len() ==> went[i] {
            assert(seq![rest[0]] + rest.drop_first() =~= rest);
        }
    }
}

/// The daemon speaks wherever it is there; the engine inside this process only where it
/// is not; and nobody only where neither is.
pub proof fn law_the_daemon_speaks_first(daemon: bool, embedded: bool)
    ensures
        speaker_of(daemon, embedded) == Some(Speaker::Daemon) <==> daemon,
        speaker_of(daemon, embedded) == Some(Speaker::Embedded) <==> embedded && !daemon,
        speaker_of(daemon, embedded) is None <==> !daemon && !embedded,
{
}

/// A sentence that could not be spoken is the last one that is handed out.
pub proof fn law_a_failure_ends_the_utterance(rest: Seq<Seq<char>>, went: Seq<bool>, at: int)
    requires
        0 <= at < went.len(),
        at < rest.len(),
        !went[at],
        forall|i: int| 0 <= i < at ==> went[i],
    ensures
        handed_out(rest, went) == rest.take(at + 1),
    decreases at,
{
    let left = after(rest, went[0]);
    let more = went.drop_first();
    if at == 0 {
        assert(handed_out(left, more) =~= Seq::<Seq<char>>::empty());
        assert(handed_out(rest, went) =~= rest.take(1));
    } else {
        assert(went[0]);
        assert forall|i: int| 0 <= i < at - 1 implies more[i] by {
            assert(went[i + 1]);
        }
        law_a_failure_ends_the_utterance(left, more, at - 1);
        assert(handed_out(rest, went) =~= rest.take(at + 1));
    }
}

} // verus!
