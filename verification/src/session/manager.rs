use vstd::prelude::*;

use crate::error::CockpitError;
use crate::text::joined;

verus! {

/// Commands sent to the session task.
pub enum SessionCommand {
    SendMessage(String),
    Interrupt,
    Kill,
}

/// What a rate limit message says. The utilization is carried as the bit pattern of a double.
pub struct RateLimitInfo {
    pub utilization_bits: u64,
    pub status: String,
    pub resets_at: i64,
}

/// What a result message says. The cost is carried as the bit pattern of a double.
pub struct ResultInfo {
    pub cost_usd_bits: Option<u64>,
    pub duration_ms: Option<u64>,
}

/// What the session's rules read of a message.
pub struct SessionMessage {
    pub session_id: Option<String>,
    /// Where the message is a rate limit event.
    pub rate_limit: Option<RateLimitInfo>,
    /// The tokens in context, where the message carries usage.
    pub context_tokens: Option<u64>,
    /// Where the message is a result.
    pub result: Option<ResultInfo>,
}

/// Events received from the session task.
pub enum SessionEvent {
    Message(SessionMessage),
    RateLimit { utilization_bits: u64, status: String, resets_at: i64 },
    ContextUpdate { context_tokens: u64 },
    Error(String),
    Finished { cost_usd_bits: Option<u64>, duration_ms: Option<u64> },
}

/// What the session task does next.
pub enum SessionAction {
    /// Hand a user message to the session.
    Inject(String),
    Interrupt,
    /// End the session, then stop.
    Kill,
    Stop,
}

/// What the session's message stream brought.
pub enum StreamOutcome {
    Message(SessionMessage),
    Ended,
    Failed(String),
}

/// Outside work of the session task that can fail.
#[derive(Debug, Clone, Copy, PartialEq, Eq, Structural)]
pub enum SessionWork {
    Spawn,
    Warmup,
    Inject,
    Interrupt,
    Stream,
}

impl SessionWork {
    /// How the message of a failure begins.
    pub open spec fn complaint(self) -> Seq<char> {
        match self {
            SessionWork::Spawn => "spawn failed: "@,
            SessionWork::Warmup => "warmup failed: "@,
            SessionWork::Inject => "inject failed: "@,
            SessionWork::Interrupt => "interrupt failed: "@,
            SessionWork::Stream => "stream error: "@,
        }
    }

    /// The event that reports a failure.
    pub fn failure(self, reason: &str) -> (event: SessionEvent)
        ensures
            event matches SessionEvent::Error(m) && m@ == self.complaint() + reason@,
    {
        SessionEvent::Error(
            match self {
                SessionWork::Spawn => joined("spawn failed: ", reason),
                SessionWork::Warmup => joined("warmup failed: ", reason),
                SessionWork::Inject => joined("inject failed: ", reason),
                SessionWork::Interrupt => joined("interrupt failed: ", reason),
                SessionWork::Stream => joined("stream error: ", reason),
            },
        )
    }
}

/// The error for a command that could not be queued.
pub fn send_failure(reason: &str) -> (e: CockpitError)
    ensures
        e matches CockpitError::Session(m) && m@ == "send failed: "@ + reason@,
{
    CockpitError::Session(joined("send failed: ", reason))
}

/// What the session task does about a command; none is left once all senders are gone.
pub fn on_command(command: Option<SessionCommand>) -> (action: SessionAction)
    ensures
        action == (match command {
            Some(SessionCommand::SendMessage(m)) => SessionAction::Inject(m),
            Some(SessionCommand::Interrupt) => SessionAction::Interrupt,
            Some(SessionCommand::Kill) => SessionAction::Kill,
            None => SessionAction::Stop,
        }),
{
    match command {
        Some(SessionCommand::SendMessage(m)) => SessionAction::Inject(m),
        Some(SessionCommand::Interrupt) => SessionAction::Interrupt,
        Some(SessionCommand::Kill) => SessionAction::Kill,
        None => SessionAction::Stop,
    }
}

impl RateLimitInfo {
    /// The event that passes a rate limit on.
    pub open spec fn announces(self, event: SessionEvent) -> bool {
        event matches SessionEvent::RateLimit { utilization_bits, status, resets_at }
            && utilization_bits == self.utilization_bits && status@ == self.status@ && resets_at
            == self.resets_at
    }
}

impl SessionMessage {
    /// How many events come before the message itself.
    pub open spec fn announcements(self) -> int {
        self.before_context() + self.before_result() + (if self.result is Some {
            1int
        } else {
            0
        })
    }

    /// Whether a rate limit event comes first.
    pub open spec fn before_context(self) -> int {
        if self.rate_limit is Some {
            1
        } else {
            0
        }
    }

    /// Whether a context event comes before the result.
    pub open spec fn before_result(self) -> int {
        if self.context_tokens is Some {
            1
        } else {
            0
        }
    }
}

/// The events that a message gives rise to: its rate limit, its context size and its result, each
/// where there is one, and the message itself last.
pub fn events_for(message: SessionMessage) -> (events: Vec<SessionEvent>)
    ensures
        events@.len() == message.announcements() + 1,
        message.rate_limit matches Some(limit) ==> limit.announces(events@[0]),
        message.context_tokens matches Some(context_tokens)
            ==> events@[message.before_context()] == (SessionEvent::ContextUpdate {
            context_tokens,
        }),
        message.result matches Some(result) ==> events@[message.announcements() - 1] == (
        SessionEvent::Finished {
            cost_usd_bits: result.cost_usd_bits,
            duration_ms: result.duration_ms,
        }),
        events@[message.announcements()] == SessionEvent::Message(message),
{
    let mut events: Vec<SessionEvent> = Vec::new();
    if let Some(limit) = &message.rate_limit {
        events.push(
            SessionEvent::RateLimit {
                utilization_bits: limit.utilization_bits,
                status: limit.status.clone(),
                resets_at: limit.resets_at,
            },
        );
    }
    if let Some(tokens) = message.context_tokens {
        events.push(SessionEvent::ContextUpdate { context_tokens: tokens });
    }
    if let Some(result) = &message.result {
        events.push(
            SessionEvent::Finished {
                cost_usd_bits: result.cost_usd_bits,
                duration_ms: result.duration_ms,
            },
        );
    }
    events.push(SessionEvent::Message(message));
    events
}

/// What the session task sends out after a turn of the message stream, and whether it goes on:
/// it stops at the end of the stream and, with a report, at a failure.
pub fn on_stream(outcome: StreamOutcome) -> (turn: (Vec<SessionEvent>, bool))
    ensures
        match outcome {
            StreamOutcome::Message(message) => {
                &&& turn.1
                &&& turn.0@.len() == message.announcements() + 1
                &&& message.rate_limit matches Some(limit) ==> limit.announces(turn.0@[0])
                &&& message.context_tokens matches Some(context_tokens)
                    ==> turn.0@[message.before_context()] == (SessionEvent::ContextUpdate {
                    context_tokens,
                })
                &&& message.result matches Some(result) ==> turn.0@[message.announcements() - 1]
                    == (SessionEvent::Finished {
                    cost_usd_bits: result.cost_usd_bits,
                    duration_ms: result.duration_ms,
                })
                &&& turn.0@[message.announcements()] == SessionEvent::Message(message)
            },
            StreamOutcome::Ended => turn.0@.len() == 0 && !turn.1,
            StreamOutcome::Failed(reason) => {
                &&& !turn.1
                &&& turn.0@.len() == 1
                &&& turn.0@[0] matches SessionEvent::Error(m) && m@
                    == SessionWork::Stream.complaint() + reason@
            },
        },
{
    match outcome {
        StreamOutcome::Message(message) => (events_for(message), true),
        StreamOutcome::Ended => (Vec::new(), false),
        StreamOutcome::Failed(reason) => {
            let mut events: Vec<SessionEvent> = Vec::new();
            events.push(SessionWork::Stream.failure(&reason));
            (events, false)
        },
    }
}

/// The side of a session that the application holds.
pub struct SessionManager {
    session_id: Option<String>,
}

impl View for SessionManager {
    type V = Option<Seq<char>>;

    /// The session's identifier, once a message has told it.
    closed spec fn view(&self) -> Option<Seq<char>> {
        match self.session_id {
            Some(id) => Some(id@),
            None => None,
        }
    }
}

impl SessionManager {
    pub fn new() -> (manager: SessionManager)
        ensures
            manager@ is None,
    {
        SessionManager { session_id: None }
    }

    /// Take note of an event: a message that carries a session identifier tells it.
    pub fn note(&mut self, event: &SessionEvent)
        ensures
            final(self)@ == (match event {
                SessionEvent::Message(message) => match message.session_id {
                    Some(id) => Some(id@),
                    None => old(self)@,
                },
                _ => old(self)@,
            }),
    {
        if let SessionEvent::Message(message) = event {
            if let Some(id) = &message.session_id {
                self.session_id = Some(id.clone());
            }
        }
    }

    pub fn session_id(&self) -> (id: Option<&str>)
        ensures
            match id {
                Some(s) => self@ == Some(s@),
                None => self@ is None,
            },
    {
        match &self.session_id {
            Some(id) => Some(id.as_str()),
            None => None,
        }
    }
}

impl Default for SessionManager {
    fn default() -> (manager: SessionManager)
        ensures
            manager@ is None,
    {
        SessionManager::new()
    }
}

/// A message is announced before it is handed on: first its rate limit, next its context size and
/// last its result, each one that it has; so the message itself comes after as many events as it
/// has of these.
pub proof fn announcements_come_in_order(message: SessionMessage)
    ensures
        message.rate_limit is Some && message.context_tokens is Some && message.result is Some
            ==> message.before_context() == 1 && message.announcements() == 3,
        message.rate_limit is None && message.context_tokens is None && message.result is None
            ==> message.announcements() == 0,
        message.rate_limit is None ==> message.before_context() == 0,
        message.rate_limit is Some && message.context_tokens is None && message.result is None
            ==> message.announcements() == 1,
        message.rate_limit is None && message.context_tokens is Some && message.result is Some
            ==> message.announcements() == 2,
{
}

/// What failed is told before the reason, and each kind of work differently.
pub proof fn complaints_name_the_work()
    ensures
        SessionWork::Spawn.complaint() == "spawn failed: "@,
        SessionWork::Warmup.complaint() == "warmup failed: "@,
        SessionWork::Inject.complaint() == "inject failed: "@,
        SessionWork::Interrupt.complaint() == "interrupt failed: "@,
        SessionWork::Stream.complaint() == "stream error: "@,
{
}

} // verus!
