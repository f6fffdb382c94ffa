//! The conversation watcher: one conversation's unread state, kept current
//! against the backend's history and live event feed.
//!
//! The watcher is a state machine. It never performs I/O itself: each step
//! takes the outcome of the operation that the previous step asked for and
//! answers with the next operation. A watcher moves through
//!
//! ```text
//! Idle -> CatchingUp -> Streaming      (conversation not on screen)
//!                    -> Settled        (conversation on screen)
//! ```
//!
//! and starts over at `CatchingUp` whenever its key changes. While the
//! conversation is on screen the message view owns its event stream, so the
//! watcher of that conversation never opens one.

use crate::conversation::ConversationInfo;
use crate::retry::{backoff_after, backoff_for, Backoff, StreamError};
use crate::unread::{count_unread, lemma_unread_after_arrival, unread_after};
use uuid::Uuid;
use vstd::prelude::*;

verus! {

/// What a watcher run is keyed on. A change of either part abandons the run
/// and starts a new one.
#[derive(Clone, Copy, Debug, PartialEq, Eq, Structural)]
pub struct WatchKey {
    /// Whether the conversation is the one currently on screen.
    pub active: bool,
    /// Identity of the unread counter that the watcher feeds.
    pub counter: u64,
}

/// Progress of the attempt to subscribe to a conversation's events.
#[derive(Clone, Copy, Debug, PartialEq, Eq, Structural)]
pub enum Subscription {
    /// A request to open the stream is in flight.
    Opening,
    /// The last request failed; a wait precedes the next one.
    BackingOff,
    /// The stream is open and its events are being consumed.
    Live,
}

/// Where a watcher stands.
#[derive(Clone, Copy, Debug, PartialEq, Eq, Structural)]
pub enum Phase {
    /// Not running: never started, or the event stream came to its end.
    Idle,
    /// The message history is being fetched.
    CatchingUp,
    /// Following the live event feed. Only reached while the conversation is
    /// not on screen.
    Streaming(Subscription),
    /// Caught up on the conversation on screen. Nothing more happens until
    /// the key changes.
    Settled,
}

/// What happened outside, as told to the watcher.
#[derive(Debug, PartialEq, Eq)]
pub enum Event {
    /// The watcher's task was spawned.
    Start,
    /// The history fetch returned these message identifiers, oldest first.
    History(Vec<Uuid>),
    /// The history fetch failed.
    FetchFailed,
    /// The event stream was opened.
    StreamOpened,
    /// The event stream could not be opened.
    OpenFailed(StreamError),
    /// The wait before the next attempt is over.
    BackoffElapsed,
    /// The stream announced a new message.
    MessageReceived(Uuid),
    /// The stream delivered an event of any other kind.
    OtherEvent,
    /// The stream came to its end.
    StreamClosed,
}

/// What the caller has to do next.
#[derive(Clone, Copy, Debug, PartialEq, Eq, Structural)]
pub enum Command {
    /// Fetch the conversation's full message history.
    FetchHistory,
    /// Ask the backend for the conversation's event stream.
    OpenStream,
    /// Wait, then report `BackoffElapsed`.
    Sleep(Backoff),
    /// Await the next event of the open stream.
    NextEvent,
    /// Nothing is left to do for this run.
    Park,
    /// The event did not belong to what the watcher is waiting for. Nothing
    /// changed; whatever was in flight stays in flight.
    Ignore,
}

/// The answer of one step.
#[derive(Clone, Copy, Debug, PartialEq, Eq)]
pub struct Outcome {
    /// The operation to perform next.
    pub command: Command,
    /// The projection to write to the state store, if this step changed it.
    /// The write is silent: it does not trigger persistence.
    pub publish: Option<ConversationInfo>,
    /// Whether the unread counter has a new value.
    pub unread_changed: bool,
    /// Whether the operation in flight (a fetch, a request, a wait, an open
    /// stream) has to be dropped before `command` is carried out.
    pub abandon: bool,
}

/// The state of a watcher as the contracts see it.
pub struct WatcherState {
    /// The watcher's copy of the conversation's projection.
    pub info: ConversationInfo,
    /// The key of the current run.
    pub key: WatchKey,
    /// The unread counter.
    pub unread: nat,
    /// Where the watcher stands.
    pub phase: Phase,
}

impl WatcherState {
    /// Whether the watcher has an event stream open.
    pub open spec fn holds_stream(self) -> bool {
        self.phase == Phase::Streaming(Subscription::Live)
    }

    /// Whether an operation is in flight on the watcher's behalf.
    pub open spec fn busy(self) -> bool {
        self.phase is CatchingUp || self.phase is Streaming
    }

    /// What holds of every state that a watcher can reach: it follows the
    /// event feed only of a conversation that is not on screen, and once it
    /// has settled on the conversation on screen nothing is unread.
    pub open spec fn wf(self) -> bool {
        &&& self.phase is Streaming ==> !self.key.active
        &&& self.phase is Settled ==> self.key.active && self.unread == 0
    }
}

/// An outcome that carries a command and nothing else.
pub open spec fn just(command: Command) -> Outcome {
    Outcome { command, publish: None, unread_changed: false, abandon: false }
}

/// The state of a new watcher.
pub open spec fn initial(info: ConversationInfo, key: WatchKey) -> WatcherState {
    WatcherState { info, key, unread: 0, phase: Phase::Idle }
}

/// The key observed anew. A changed key abandons the current run, whatever
/// its phase, and begins a new one at `CatchingUp`; the same key changes
/// nothing.
pub open spec fn rekey_model(s: WatcherState, key: WatchKey) -> (WatcherState, Outcome) {
    if key != s.key {
        (
            WatcherState { key, phase: Phase::CatchingUp, ..s },
            Outcome {
                command: Command::FetchHistory,
                publish: None,
                unread_changed: false,
                abandon: s.busy(),
            },
        )
    } else {
        (s, just(Command::Ignore))
    }
}

/// The end of catching up, given the fetched `history` (oldest first).
///
/// On screen: the watermark moves to the newest message, if there is one, the
/// projection is then published, and nothing is unread. Off screen: the
/// messages after the watermark are unread, and the watcher goes on to
/// subscribe to the event feed.
pub open spec fn caught_up(s: WatcherState, history: Seq<Uuid>) -> (WatcherState, Outcome) {
    if s.key.active {
        let info = if history.len() > 0 {
            ConversationInfo { last_msg_read: Some(history.last()), ..s.info }
        } else {
            s.info
        };
        (
            WatcherState { info, unread: 0, phase: Phase::Settled, ..s },
            Outcome {
                command: Command::Park,
                publish: if history.len() > 0 {
                    Some(info)
                } else {
                    None
                },
                unread_changed: s.unread != 0,
                abandon: false,
            },
        )
    } else {
        let unread = unread_after(history, s.info.last_msg_read);
        (
            WatcherState { unread, phase: Phase::Streaming(Subscription::Opening), ..s },
            Outcome {
                command: Command::OpenStream,
                publish: None,
                unread_changed: unread != s.unread,
                abandon: false,
            },
        )
    }
}

/// The arrival of `message` on the open stream.
///
/// On screen the message counts as read at once: the watermark moves to it
/// and the projection is published. Off screen it is one more unread message.
pub open spec fn received(s: WatcherState, message: Uuid) -> (WatcherState, Outcome) {
    if s.key.active {
        let info = ConversationInfo { last_msg_read: Some(message), ..s.info };
        (
            WatcherState { info, ..s },
            Outcome {
                command: Command::NextEvent,
                publish: Some(info),
                unread_changed: false,
                abandon: false,
            },
        )
    } else {
        (
            WatcherState { unread: s.unread + 1, ..s },
            Outcome {
                command: Command::NextEvent,
                publish: None,
                unread_changed: true,
                abandon: false,
            },
        )
    }
}

/// The watcher's transition function: the state after `event` and the answer
/// to it.
///
/// An event is acted on only in the phase that waits for it and is ignored
/// elsewhere. A failed history fetch counts as an empty history. No event
/// leads to a failed state: a stream that cannot be opened is asked for again
/// after a wait, for as long as it takes.
pub open spec fn step_model(s: WatcherState, event: Event) -> (WatcherState, Outcome) {
    match (s.phase, event) {
        (Phase::Idle, Event::Start) => (
            WatcherState { phase: Phase::CatchingUp, ..s },
            just(Command::FetchHistory),
        ),
        (Phase::CatchingUp, Event::History(history)) => caught_up(s, history@),
        (Phase::CatchingUp, Event::FetchFailed) => caught_up(s, Seq::empty()),
        (Phase::Streaming(Subscription::Opening), Event::StreamOpened) => (
            WatcherState { phase: Phase::Streaming(Subscription::Live), ..s },
            just(Command::NextEvent),
        ),
        (Phase::Streaming(Subscription::Opening), Event::OpenFailed(error)) => (
            WatcherState { phase: Phase::Streaming(Subscription::BackingOff), ..s },
            just(Command::Sleep(backoff_for(error))),
        ),
        (Phase::Streaming(Subscription::BackingOff), Event::BackoffElapsed) => (
            WatcherState { phase: Phase::Streaming(Subscription::Opening), ..s },
            just(Command::OpenStream),
        ),
        (Phase::Streaming(Subscription::Live), Event::MessageReceived(message)) => received(
            s,
            message,
        ),
        (Phase::Streaming(Subscription::Live), Event::OtherEvent) => (
            s,
            just(Command::NextEvent),
        ),
        (Phase::Streaming(Subscription::Live), Event::StreamClosed) => (
            WatcherState { phase: Phase::Idle, ..s },
            just(Command::Park),
        ),
        _ => (s, just(Command::Ignore)),
    }
}

/// Whether the counter can take the step: the one step that counts upwards
/// needs room for one more.
pub open spec fn step_fits(s: WatcherState, event: Event) -> bool {
    s.holds_stream() && !s.key.active && event is MessageReceived ==> s.unread < usize::MAX
}

/// A new watcher is in a state that `wf` admits.
pub proof fn lemma_initial_is_wf(info: ConversationInfo, key: WatchKey)
    ensures
        initial(info, key).wf(),
{
}

/// No step leaves the states that `wf` admits. Together with
/// `lemma_initial_is_wf` and `lemma_rekey_keeps_wf`: every state that a
/// watcher reaches is one of them.
pub proof fn lemma_step_keeps_wf(s: WatcherState, event: Event)
    requires
        s.wf(),
    ensures
        step_model(s, event).0.wf(),
        step_model(s, event).0.key == s.key,
        step_model(s, event).0.info.conversation == s.info.conversation,
{
}

/// No change of key leaves the states that `wf` admits.
pub proof fn lemma_rekey_keeps_wf(s: WatcherState, key: WatchKey)
    requires
        s.wf(),
    ensures
        rekey_model(s, key).0.wf(),
        rekey_model(s, key).0.key == key,
        rekey_model(s, key).0.info == s.info,
        rekey_model(s, key).0.unread == s.unread,
{
}

/// Catching up on the conversation on screen leaves nothing unread and the
/// watermark on the newest message of the history. With an empty history the
/// watermark stays unset.
pub proof fn lemma_caught_up_on_screen(s: WatcherState, history: Vec<Uuid>)
    requires
        s.phase is CatchingUp,
        s.key.active,
        history@.len() == 0 ==> s.info.last_msg_read is None,
    ensures
        ({
            let after = step_model(s, Event::History(history)).0;
            &&& after.phase is Settled
            &&& after.key.active
            &&& after.unread == 0
            &&& after.info.conversation == s.info.conversation
            &&& after.info.last_msg_read == if history@.len() > 0 {
                Some(history@.last())
            } else {
                None
            }
        }),
{
}

/// Catching up on a conversation off screen leaves the projection as it was
/// and counts as unread the messages that came after the watermark: all of
/// them when the watermark is unset. The watcher then asks for the event
/// stream.
pub proof fn lemma_caught_up_off_screen(s: WatcherState, history: Vec<Uuid>)
    requires
        s.phase is CatchingUp,
        !s.key.active,
    ensures
        ({
            let (after, out) = step_model(s, Event::History(history));
            &&& after.info == s.info
            &&& after.unread == unread_after(history@, after.info.last_msg_read)
            &&& after.info.last_msg_read is None ==> after.unread == history@.len()
            &&& after.phase == Phase::Streaming(Subscription::Opening)
            &&& out.command == Command::OpenStream
            &&& out.publish is None
        }),
{
}

/// While a conversation is off screen, the counter keeps counting the
/// messages after the watermark as they arrive: if it held that count for
/// the messages `arrived` so far, it holds it again once `message` has come
/// in. (A message that carries the watermark's own identifier is left out:
/// identifiers of new messages are fresh.)
pub proof fn lemma_arrival_off_screen(s: WatcherState, arrived: Seq<Uuid>, message: Uuid)
    requires
        s.holds_stream(),
        !s.key.active,
        s.unread == unread_after(arrived, s.info.last_msg_read),
        s.info.last_msg_read != Some(message),
    ensures
        ({
            let after = step_model(s, Event::MessageReceived(message)).0;
            &&& after.unread == unread_after(arrived.push(message), after.info.last_msg_read)
            &&& after.info == s.info
            &&& after.holds_stream()
        }),
{
    lemma_unread_after_arrival(arrived, s.info.last_msg_read, message);
}

/// The state after the messages `arrivals` came in over the open stream, one
/// after the other.
pub open spec fn after_arrivals(s: WatcherState, arrivals: Seq<Uuid>) -> WatcherState
    decreases arrivals.len(),
{
    if arrivals.len() == 0 {
        s
    } else {
        step_model(
            after_arrivals(s, arrivals.drop_last()),
            Event::MessageReceived(arrivals.last()),
        ).0
    }
}

/// For as long as a conversation stays off screen, its counter is the number
/// of messages that came after the watermark, in the order of arrival: the
/// history that was fetched, followed by what the stream delivered since.
pub proof fn lemma_unread_follows_arrivals(
    s: WatcherState,
    history: Seq<Uuid>,
    arrivals: Seq<Uuid>,
)
    requires
        s.holds_stream(),
        !s.key.active,
        s.unread == unread_after(history, s.info.last_msg_read),
        forall|i: int| 0 <= i < arrivals.len() ==> s.info.last_msg_read != Some(arrivals[i]),
    ensures
        after_arrivals(s, arrivals).unread == unread_after(
            history + arrivals,
            s.info.last_msg_read,
        ),
        after_arrivals(s, arrivals).info == s.info,
        after_arrivals(s, arrivals).key == s.key,
        after_arrivals(s, arrivals).holds_stream(),
    decreases arrivals.len(),
{
    if arrivals.len() == 0 {
        assert(history + arrivals == history);
    } else {
        let earlier = arrivals.drop_last();
        lemma_unread_follows_arrivals(s, history, earlier);
        lemma_arrival_off_screen(after_arrivals(s, earlier), history + earlier, arrivals.last());
        assert((history + earlier).push(arrivals.last()) == history + arrivals);
    }
}

/// A watcher asks for an event stream only while the conversation is off
/// screen and only when it has none: no step that answers `OpenStream`
/// starts from, or ends in, a state with an open stream. And a change of key
/// that finds a stream open says to abandon it.
pub proof fn lemma_never_a_second_stream(s: WatcherState, event: Event, key: WatchKey)
    requires
        s.wf(),
    ensures
        step_model(s, event).1.command == Command::OpenStream ==> {
            &&& !s.holds_stream()
            &&& !step_model(s, event).0.holds_stream()
            &&& !step_model(s, event).0.key.active
        },
        rekey_model(s, key).1.command != Command::OpenStream,
        s.holds_stream() && key != s.key ==> {
            &&& rekey_model(s, key).1.abandon
            &&& !rekey_model(s, key).0.holds_stream()
        },
{
}

/// A failed history fetch is treated as a history without messages.
pub proof fn lemma_failed_fetch_is_empty_history(s: WatcherState, history: Vec<Uuid>)
    requires
        history@.len() == 0,
    ensures
        step_model(s, Event::FetchFailed) == step_model(s, Event::History(history)),
{
}

/// A stream that cannot be opened is asked for again: the failure is answered
/// with the wait that belongs to it, and the end of the wait with a new
/// request, from the very state in which the first request was made.
pub proof fn lemma_failed_open_is_retried(s: WatcherState, error: StreamError)
    requires
        s.phase == Phase::Streaming(Subscription::Opening),
    ensures
        ({
            let (waiting, wait) = step_model(s, Event::OpenFailed(error));
            let (again, retry) = step_model(waiting, Event::BackoffElapsed);
            &&& wait == just(Command::Sleep(backoff_for(error)))
            &&& retry == just(Command::OpenStream)
            &&& again == s
        }),
{
}

/// The watcher of one conversation.
#[derive(Clone, Copy, Debug)]
pub struct Watcher {
    info: ConversationInfo,
    key: WatchKey,
    unread: usize,
    phase: Phase,
}

impl View for Watcher {
    type V = WatcherState;

    closed spec fn view(&self) -> WatcherState {
        WatcherState {
            info: self.info,
            key: self.key,
            unread: self.unread as nat,
            phase: self.phase,
        }
    }
}

impl Outcome {
    fn only(command: Command) -> (out: Outcome)
        ensures
            out == just(command),
    {
        Outcome { command, publish: None, unread_changed: false, abandon: false }
    }
}

impl Watcher {
    #[verifier::type_invariant]
    spec fn reachable(self) -> bool {
        self@.wf()
    }

    /// A watcher for the conversation that `info` projects, not yet started,
    /// with nothing unread.
    pub fn new(info: ConversationInfo, key: WatchKey) -> (watcher: Watcher)
        ensures
            watcher@ == initial(info, key),
            watcher@.wf(),
    {
        Watcher { info, key, unread: 0, phase: Phase::Idle }
    }

    /// The watcher's copy of the projection.
    pub fn info(&self) -> (info: ConversationInfo)
        ensures
            info == self@.info,
    {
        self.info
    }

    /// The key of the current run.
    pub fn key(&self) -> (key: WatchKey)
        ensures
            key == self@.key,
    {
        self.key
    }

    /// The unread counter.
    pub fn unread(&self) -> (unread: usize)
        ensures
            unread == self@.unread,
    {
        self.unread
    }

    /// Where the watcher stands. Whatever the watcher went through, it
    /// stands in a state that `wf` admits.
    pub fn phase(&self) -> (phase: Phase)
        ensures
            phase == self@.phase,
            self@.wf(),
    {
        proof {
            use_type_invariant(self);
        }
        self.phase
    }

    /// Whether the watcher has an event stream open. It never has while its
    /// conversation is on screen.
    pub fn holds_stream(&self) -> (yes: bool)
        ensures
            yes == self@.holds_stream(),
            yes ==> !self@.key.active,
    {
        proof {
            use_type_invariant(self);
        }
        match self.phase {
            Phase::Streaming(Subscription::Live) => true,
            _ => false,
        }
    }

    /// Whether `event` can be handed to `step`: always, unless it would count
    /// the unread counter past what it can hold.
    pub fn accepts(&self, event: &Event) -> (yes: bool)
        ensures
            yes == step_fits(self@, *event),
    {
        match event {
            Event::MessageReceived(_) => !(self.holds_stream() && !self.key.active && self.unread
                == usize::MAX),
            _ => true,
        }
    }

    /// Takes one step: moves to the state that follows `event` and answers
    /// with what has to happen next.
    pub fn step(&mut self, event: Event) -> (out: Outcome)
        requires
            step_fits(old(self)@, event),
        ensures
            final(self)@ == step_model(old(self)@, event).0,
            out == step_model(old(self)@, event).1,
            final(self)@.wf(),
    {
        proof {
            use_type_invariant(&*self);
            lemma_step_keeps_wf(self@, event);
        }
        match event {
            Event::Start => match self.phase {
                Phase::Idle => {
                    self.phase = Phase::CatchingUp;
                    Outcome::only(Command::FetchHistory)
                },
                _ => Outcome::only(Command::Ignore),
            },
            Event::History(history) => match self.phase {
                Phase::CatchingUp => self.catch_up(&history),
                _ => Outcome::only(Command::Ignore),
            },
            Event::FetchFailed => match self.phase {
                Phase::CatchingUp => {
                    let nothing: Vec<Uuid> = Vec::new();
                    self.catch_up(&nothing)
                },
                _ => Outcome::only(Command::Ignore),
            },
            Event::StreamOpened => match self.phase {
                Phase::Streaming(Subscription::Opening) => {
                    self.phase = Phase::Streaming(Subscription::Live);
                    Outcome::only(Command::NextEvent)
                },
                _ => Outcome::only(Command::Ignore),
            },
            Event::OpenFailed(error) => match self.phase {
                Phase::Streaming(Subscription::Opening) => {
                    self.phase = Phase::Streaming(Subscription::BackingOff);
                    Outcome::only(Command::Sleep(backoff_after(error)))
                },
                _ => Outcome::only(Command::Ignore),
            },
            Event::BackoffElapsed => match self.phase {
                Phase::Streaming(Subscription::BackingOff) => {
                    self.phase = Phase::Streaming(Subscription::Opening);
                    Outcome::only(Command::OpenStream)
                },
                _ => Outcome::only(Command::Ignore),
            },
            Event::MessageReceived(message) => match self.phase {
                Phase::Streaming(Subscription::Live) => self.receive(message),
                _ => Outcome::only(Command::Ignore),
            },
            Event::OtherEvent => match self.phase {
                Phase::Streaming(Subscription::Live) => Outcome::only(Command::NextEvent),
                _ => Outcome::only(Command::Ignore),
            },
            Event::StreamClosed => match self.phase {
                Phase::Streaming(Subscription::Live) => {
                    self.phase = Phase::Idle;
                    Outcome::only(Command::Park)
                },
                _ => Outcome::only(Command::Ignore),
            },
        }
    }

    /// Tells the watcher the key as it is now. If it differs from the key of
    /// the current run, that run is abandoned and a new one begins with a
    /// fetch of the history.
    pub fn rekey(&mut self, key: WatchKey) -> (out: Outcome)
        ensures
            final(self)@ == rekey_model(old(self)@, key).0,
            out == rekey_model(old(self)@, key).1,
            final(self)@.wf(),
    {
        proof {
            use_type_invariant(&*self);
        }
        if key == self.key {
            return Outcome::only(Command::Ignore);
        }
        let abandon = match self.phase {
            Phase::CatchingUp => true,
            Phase::Streaming(_) => true,
            _ => false,
        };
        self.phase = Phase::CatchingUp;
        self.key = key;
        Outcome { command: Command::FetchHistory, publish: None, unread_changed: false, abandon }
    }

    fn catch_up(&mut self, history: &Vec<Uuid>) -> (out: Outcome)
        ensures
            final(self)@ == caught_up(old(self)@, history@).0,
            out == caught_up(old(self)@, history@).1,
    {
        proof {
            use_type_invariant(&*self);
        }
        if self.key.active {
            let unread_changed = self.unread != 0;
            let mut publish: Option<ConversationInfo> = None;
            if history.len() > 0 {
                self.info = self.info.read_up_to(history[history.len() - 1]);
                publish = Some(self.info);
            }
            self.unread = 0;
            self.phase = Phase::Settled;
            Outcome { command: Command::Park, publish, unread_changed, abandon: false }
        } else {
            let unread = count_unread(history, self.info.last_msg_read);
            let unread_changed = unread != self.unread;
            self.unread = unread;
            self.phase = Phase::Streaming(Subscription::Opening);
            Outcome { command: Command::OpenStream, publish: None, unread_changed, abandon: false }
        }
    }

    fn receive(&mut self, message: Uuid) -> (out: Outcome)
        requires
            !old(self)@.key.active ==> old(self)@.unread < usize::MAX,
        ensures
            final(self)@ == received(old(self)@, message).0,
            out == received(old(self)@, message).1,
    {
        proof {
            use_type_invariant(&*self);
        }
        if self.key.active {
            self.info = self.info.read_up_to(message);
            Outcome {
                command: Command::NextEvent,
                publish: Some(self.info),
                unread_changed: false,
                abandon: false,
            }
        } else {
            self.unread = self.unread + 1;
            Outcome {
                command: Command::NextEvent,
                publish: None,
                unread_changed: true,
                abandon: false,
            }
        }
    }
}

} // verus!
