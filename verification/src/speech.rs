//! A synthesis job as a state machine. The machine decides; whoever drives it
//! talks to the endpoint and to the audio sink, and reports back what happened.

use crate::client::synthesis_url;
use crate::client::GoogleTranslateClient;
use crate::error::TtsError;
use crate::error::TtsErrorView;
use vstd::prelude::*;

verus! {

/// Where a job stands.
#[derive(Clone, Copy, Debug, PartialEq, Eq, Structural)]
pub enum Phase {
    /// Nothing has been asked for yet.
    Idle,
    /// The request is on its way; the head of the answer is awaited.
    Requesting,
    /// The answer is a success; its next chunk is awaited.
    Streaming,
    /// A chunk has been handed to the sink; the sink's word is awaited.
    Writing,
    /// The job is over and nothing failed.
    Done,
    /// The job is over because something failed.
    Failed,
}

/// What the driver reports to the machine.
#[derive(Debug, PartialEq, Eq)]
pub enum Event {
    /// The head of the answer has arrived, with this status code.
    Response(u16),
    /// The next chunk of the answer's body has arrived.
    Chunk(Vec<u8>),
    /// The answer's body has ended.
    EndOfBody,
    /// The sink has taken the chunk that was handed to it.
    Written,
    /// The request could not be sent, or the answer could not be received.
    TransportFailed(String),
    /// The sink could not take the chunk.
    SinkFailed(String),
}

/// What the machine asks the driver to do next.
#[derive(Debug, PartialEq, Eq)]
pub enum Action {
    /// Send a GET request to this URL and await the head of the answer.
    Get(String),
    /// Await the next chunk of the answer's body.
    NextChunk,
    /// Append these bytes to the sink, as they are.
    Append(Vec<u8>),
    /// Stop: the job is done.
    Finish,
    /// Stop: the job failed with this error.
    Abort(TtsError),
}

/// An event as plain mathematical values.
pub enum EventView {
    Response(u16),
    Chunk(Seq<u8>),
    EndOfBody,
    Written,
    TransportFailed(Seq<char>),
    SinkFailed(Seq<char>),
}

/// An action as plain mathematical values.
pub enum ActionView {
    Get(Seq<char>),
    NextChunk,
    Append(Seq<u8>),
    Finish,
    Abort(TtsErrorView),
}

impl View for Event {
    type V = EventView;

    open spec fn view(&self) -> EventView {
        match self {
            Event::Response(status) => EventView::Response(*status),
            Event::Chunk(bytes) => EventView::Chunk(bytes@),
            Event::EndOfBody => EventView::EndOfBody,
            Event::Written => EventView::Written,
            Event::TransportFailed(m) => EventView::TransportFailed(m@),
            Event::SinkFailed(m) => EventView::SinkFailed(m@),
        }
    }
}

impl View for Action {
    type V = ActionView;

    open spec fn view(&self) -> ActionView {
        match self {
            Action::Get(url) => ActionView::Get(url@),
            Action::NextChunk => ActionView::NextChunk,
            Action::Append(bytes) => ActionView::Append(bytes@),
            Action::Finish => ActionView::Finish,
            Action::Abort(e) => ActionView::Abort(e@),
        }
    }
}

/// A status code in the range of success, 200 to 299.
pub open spec fn success(status: u16) -> bool {
    200 <= status <= 299
}

/// The step that an event causes in a phase: the next phase and what to do;
/// `None` where the phase does not await the event.
///
/// A success is streamed chunk by chunk, each chunk handed to the sink before
/// the next is asked for. An answer that is no success ends the job at once,
/// with nothing written and no error. A failure of the transport or of the sink
/// ends it with that failure's error. A job that is over awaits nothing.
pub open spec fn step(phase: Phase, event: EventView) -> Option<(Phase, ActionView)> {
    match (phase, event) {
        (Phase::Requesting, EventView::Response(status)) => if success(status) {
            Some((Phase::Streaming, ActionView::NextChunk))
        } else {
            Some((Phase::Done, ActionView::Finish))
        },
        (Phase::Requesting, EventView::TransportFailed(m)) => Some(
            (Phase::Failed, ActionView::Abort(TtsErrorView::RequestError(m))),
        ),
        (Phase::Streaming, EventView::Chunk(bytes)) => Some(
            (Phase::Writing, ActionView::Append(bytes)),
        ),
        (Phase::Streaming, EventView::EndOfBody) => Some((Phase::Done, ActionView::Finish)),
        (Phase::Streaming, EventView::TransportFailed(m)) => Some(
            (Phase::Failed, ActionView::Abort(TtsErrorView::RequestError(m))),
        ),
        (Phase::Writing, EventView::Written) => Some((Phase::Streaming, ActionView::NextChunk)),
        (Phase::Writing, EventView::SinkFailed(m)) => Some(
            (Phase::Failed, ActionView::Abort(TtsErrorView::IoError(m))),
        ),
        _ => None,
    }
}

/// Whether a status code is in the range of success.
pub fn is_success(status: u16) -> (b: bool)
    ensures
        b == success(status),
{
    200 <= status && status <= 299
}

/// One synthesis job: a client for the job's language, and where the job stands.
pub struct TextToSpeech {
    client: GoogleTranslateClient,
    phase: Phase,
}

/// A job as plain mathematical values.
pub struct TextToSpeechView {
    pub base_url: Seq<char>,
    pub language: Seq<char>,
    pub phase: Phase,
}

impl View for TextToSpeech {
    type V = TextToSpeechView;

    closed spec fn view(&self) -> TextToSpeechView {
        TextToSpeechView {
            base_url: self.client.base_url@,
            language: self.client.language@,
            phase: self.phase,
        }
    }
}

impl TextToSpeech {
    /// A job for `language` that has not begun.
    pub fn new(language: &str) -> (job: Self)
        ensures
            job@.base_url == crate::client::endpoint(),
            job@.language == language@,
            job@.phase == Phase::Idle,
    {
        TextToSpeech { client: GoogleTranslateClient::new(language.to_owned()), phase: Phase::Idle }
    }

    /// Where the job stands.
    pub fn phase(&self) -> (p: Phase)
        ensures
            p == self@.phase,
    {
        self.phase
    }

    /// Begins the job: asks for the request for `text` to be sent. A job
    /// that has begun already is left as it is, and `None` says so.
    pub fn synthesize_text(&mut self, text: &str) -> (action: Option<Action>)
        ensures
            final(self)@.base_url == old(self)@.base_url,
            final(self)@.language == old(self)@.language,
            old(self)@.phase == Phase::Idle ==> final(self)@.phase == Phase::Requesting && action
                is Some && action->0@ == ActionView::Get(
                synthesis_url(old(self)@.base_url, text@, old(self)@.language),
            ),
            old(self)@.phase != Phase::Idle ==> final(self)@.phase == old(self)@.phase && action
                is None,
    {
        if self.phase != Phase::Idle {
            return None;
        }
        match self.client.build_url(text) {
            Ok(url) => {
                self.phase = Phase::Requesting;
                Some(Action::Get(url))
            },
            Err(e) => {
                self.phase = Phase::Failed;
                Some(Action::Abort(e))
            },
        }
    }

    /// Takes the driver's report and says what to do next, as `step` has it.
    /// A report that the job does not await leaves the job as it is, and
    /// `None` says so.
    pub fn advance(&mut self, event: Event) -> (action: Option<Action>)
        ensures
            final(self)@.base_url == old(self)@.base_url,
            final(self)@.language == old(self)@.language,
            match step(old(self)@.phase, event@) {
                Some((phase, wanted)) => final(self)@.phase == phase && action is Some
                    && action->0@ == wanted,
                None => final(self)@.phase == old(self)@.phase && action is None,
            },
    {
        match (self.phase, event) {
            (Phase::Requesting, Event::Response(status)) => {
                if is_success(status) {
                    self.phase = Phase::Streaming;
                    Some(Action::NextChunk)
                } else {
                    self.phase = Phase::Done;
                    Some(Action::Finish)
                }
            },
            (Phase::Requesting, Event::TransportFailed(m)) => {
                self.phase = Phase::Failed;
                Some(Action::Abort(TtsError::RequestError(m)))
            },
            (Phase::Streaming, Event::Chunk(bytes)) => {
                self.phase = Phase::Writing;
                Some(Action::Append(bytes))
            },
            (Phase::Streaming, Event::EndOfBody) => {
                self.phase = Phase::Done;
                Some(Action::Finish)
            },
            (Phase::Streaming, Event::TransportFailed(m)) => {
                self.phase = Phase::Failed;
                Some(Action::Abort(TtsError::RequestError(m)))
            },
            (Phase::Writing, Event::Written) => {
                self.phase = Phase::Streaming;
                Some(Action::NextChunk)
            },
            (Phase::Writing, Event::SinkFailed(m)) => {
                self.phase = Phase::Failed;
                Some(Action::Abort(TtsError::IoError(m)))
            },
            _ => None,
        }
    }
}

/// The bytes that a chunk event carries; no bytes for any other event.
pub open spec fn carried(event: EventView) -> Seq<u8> {
    match event {
        EventView::Chunk(bytes) => bytes,
        _ => Seq::empty(),
    }
}

/// The bytes that an action hands to the sink; no bytes for any action but `Append`.
pub open spec fn handed(action: ActionView) -> Seq<u8> {
    match action {
        ActionView::Append(bytes) => bytes,
        _ => Seq::empty(),
    }
}

/// The bytes that a sequence of events carries, in the order of arrival.
pub open spec fn received(events: Seq<EventView>) -> Seq<u8>
    decreases events.len(),
{
    if events.len() == 0 {
        Seq::empty()
    } else {
        carried(events.first()) + received(events.drop_first())
    }
}

/// The bytes that a sequence of actions hands to the sink, in the order of the
/// actions: what the sink holds once it has taken them all.
pub open spec fn appended(actions: Seq<ActionView>) -> Seq<u8>
    decreases actions.len(),
{
    if actions.len() == 0 {
        Seq::empty()
    } else {
        handed(actions.first()) + appended(actions.drop_first())
    }
}

/// What a run of a job leaves: the phase it ends in, and the actions it asked
/// for, in order.
pub struct Trace {
    pub phase: Phase,
    pub actions: Seq<ActionView>,
}

/// A job taken through a sequence of events, one `step` each; `None` where an
/// event comes out of turn.
pub open spec fn run(phase: Phase, events: Seq<EventView>) -> Option<Trace>
    decreases events.len(),
{
    if events.len() == 0 {
        Some(Trace { phase, actions: Seq::empty() })
    } else {
        match step(phase, events.first()) {
            None => None,
            Some((next, action)) => match run(next, events.drop_first()) {
                None => None,
                Some(rest) => Some(Trace { phase: rest.phase, actions: seq![action] + rest.actions }),
            },
        }
    }
}

/// What the driver reports while a body of these chunks arrives and the sink
/// takes each of them: the chunk, then the sink's word, chunk after chunk, and
/// the end of the body.
pub open spec fn delivery(chunks: Seq<Seq<u8>>) -> Seq<EventView>
    decreases chunks.len(),
{
    if chunks.len() == 0 {
        seq![EventView::EndOfBody]
    } else {
        seq![EventView::Chunk(chunks.first()), EventView::Written] + delivery(chunks.drop_first())
    }
}

/// Whatever the events, as long as each comes in turn: the sink is handed the
/// bytes that arrived, all of them, once, and in the order of arrival.
pub proof fn lemma_appended_is_received(phase: Phase, events: Seq<EventView>)
    requires
        run(phase, events) is Some,
    ensures
        appended(run(phase, events)->0.actions) == received(events),
    decreases events.len(),
{
    if events.len() > 0 {
        let (next, action) = step(phase, events.first())->0;
        let rest = run(next, events.drop_first())->0;
        lemma_appended_is_received(next, events.drop_first());
        assert((seq![action] + rest.actions).drop_first() =~= rest.actions);
        assert(handed(action) == carried(events.first()));
    }
}

/// A run that begins with `event` takes one step, and runs on from there.
proof fn lemma_run_first(phase: Phase, event: EventView, rest: Seq<EventView>)
    ensures
        run(phase, seq![event] + rest) == match step(phase, event) {
            None => None,
            Some((next, action)) => match run(next, rest) {
                None => None,
                Some(after) => Some(
                    (Trace { phase: after.phase, actions: seq![action] + after.actions }),
                ),
            },
        },
{
    assert((seq![event] + rest).drop_first() =~= rest);
}

/// The bytes handed over by a sequence of actions that begins with `action`.
proof fn lemma_appended_first(action: ActionView, rest: Seq<ActionView>)
    ensures
        appended(seq![action] + rest) == handed(action) + appended(rest),
{
    assert((seq![action] + rest).drop_first() =~= rest);
}

/// A body that arrives in chunks, each of any length, ends the job with the
/// sink holding the chunks one after the other: nothing lost, nothing twice,
/// nothing out of place.
pub proof fn lemma_stream_in_order(chunks: Seq<Seq<u8>>)
    ensures
        run(Phase::Streaming, delivery(chunks)) is Some,
        run(Phase::Streaming, delivery(chunks))->0.phase == Phase::Done,
        appended(run(Phase::Streaming, delivery(chunks))->0.actions) == chunks.flatten(),
    decreases chunks.len(),
{
    let none = Seq::<EventView>::empty();
    if chunks.len() == 0 {
        assert(delivery(chunks) =~= seq![EventView::EndOfBody] + none);
        lemma_run_first(Phase::Streaming, EventView::EndOfBody, none);
        lemma_appended_first(ActionView::Finish, Seq::empty());
    } else {
        let rest = delivery(chunks.drop_first());
        let after = run(Phase::Streaming, rest)->0;
        lemma_stream_in_order(chunks.drop_first());
        assert(delivery(chunks) =~= seq![EventView::Chunk(chunks.first())] + (seq![
            EventView::Written,
        ] + rest));
        lemma_run_first(Phase::Writing, EventView::Written, rest);
        lemma_run_first(
            Phase::Streaming,
            EventView::Chunk(chunks.first()),
            seq![EventView::Written] + rest,
        );
        lemma_appended_first(ActionView::NextChunk, after.actions);
        lemma_appended_first(
            ActionView::Append(chunks.first()),
            seq![ActionView::NextChunk] + after.actions,
        );
        assert(Seq::<u8>::empty() + appended(after.actions) =~= appended(after.actions));
    }
}

/// A job from the head of the answer on. After a success the body is streamed
/// as `lemma_stream_in_order` says. After any other answer the job is over at
/// once: nothing is handed to the sink, no error is raised, and no further
/// event is awaited.
pub proof fn lemma_answer(status: u16, chunks: Seq<Seq<u8>>)
    ensures
        success(status) ==> {
            let job = run(Phase::Requesting, seq![EventView::Response(status)] + delivery(chunks));
            job is Some && job->0.phase == Phase::Done && appended(job->0.actions)
                == chunks.flatten()
        },
        !success(status) ==> run(Phase::Requesting, seq![EventView::Response(status)]) == Some(
            (Trace { phase: Phase::Done, actions: seq![ActionView::Finish] }),
        ),
        forall|event: EventView| step(Phase::Done, event) is None,
{
    let none = Seq::<EventView>::empty();
    if success(status) {
        let after = run(Phase::Streaming, delivery(chunks))->0;
        lemma_stream_in_order(chunks);
        lemma_run_first(Phase::Requesting, EventView::Response(status), delivery(chunks));
        lemma_appended_first(ActionView::NextChunk, after.actions);
        assert(Seq::<u8>::empty() + appended(after.actions) =~= appended(after.actions));
    } else {
        lemma_run_first(Phase::Requesting, EventView::Response(status), none);
        assert(seq![EventView::Response(status)] + none =~= seq![EventView::Response(status)]);
        assert(seq![ActionView::Finish] + Seq::<ActionView>::empty() =~= seq![ActionView::Finish]);
    }
}

} // verus!
