//! The stream connection manager, as a state machine: given the state of
//! the connection and what just happened, what the state becomes and what
//! the caller is to do next.
//!
//! The caller owns the transport. It reports events with
//! [`ConnectionManager::handle`] and performs the action it is handed:
//! connecting, sending, sleeping and reading are all its work.

use vstd::prelude::*;

use crate::retry::bump;
use crate::retry::drawn_around;
use crate::retry::grown;
use crate::retry::total_nanos;
use crate::retry::INITIAL_INTERVAL_NANOS;
use crate::retry::ReconnectBackoff;
use crate::retry::RetryDelay;
use crate::update::Update;

verus! {

/// Where the connection stands.
#[derive(Clone, Copy, Debug, PartialEq, Eq, Structural)]
pub enum Phase {
    /// Nothing has been started.
    Idle,
    /// A connection is being opened.
    Connecting,
    /// Subscribed, reading the stream.
    Subscribed,
    /// The stream ended; waiting out the delay before reconnecting.
    Draining,
    /// The connection failed; waiting out the delay before reconnecting.
    Failed,
}

/// What happened on the transport.
pub enum Event {
    /// The task starts.
    Start,
    /// The connection was opened.
    Connected,
    /// The connection could not be opened.
    ConnectFailed,
    /// The subscription could not be opened or the request not be sent.
    SubscribeFailed,
    /// The stream delivered an item.
    Received(Update),
    /// The acknowledgement of a ping could not be sent.
    AckFailed,
    /// Reading the stream failed.
    StreamError,
    /// The stream ended.
    StreamEnded,
    /// The delay before reconnecting is over.
    DelayElapsed,
}

/// What the caller is to do next.
pub enum Action {
    /// Open a connection.
    Connect,
    /// Send the subscribe request, resuming from `from_slot` where given.
    Subscribe { from_slot: Option<u64> },
    /// Answer the ping on the same connection, then read on.
    Acknowledge,
    /// Offer the update to the update channel, then read on.
    Forward(Update),
    /// Nothing to do but read on.
    Continue,
    /// Give up the connection and sleep before reconnecting.
    Sleep(RetryDelay),
}

/// The action with everything left out that the state machine does not
/// decide: the length of a delay comes from the delay policy.
#[derive(PartialEq, Eq, Structural)]
pub enum Reaction {
    Connect,
    Subscribe { from_slot: Option<u64> },
    Acknowledge,
    Forward,
    Continue,
    Sleep,
}

/// The state of the connection manager.
pub struct ManagerState {
    pub phase: Phase,
    /// The highest slot seen on any update; zero before the first.
    pub tracked_slot: u64,
    /// Whether this connection delivered anything but keepalives.
    pub saw_non_heartbeat: bool,
    /// Delays taken since the delay policy last started afresh.
    pub delays_taken: u64,
    /// The interval around which the next delay is drawn, in nanoseconds.
    pub interval_nanos: int,
}

/// The slot a new subscription resumes from: one below the tracked slot,
/// so that no slot is skipped; none while no slot has been seen.
pub open spec fn resume_point(tracked_slot: u64) -> Option<u64> {
    if tracked_slot > 0 {
        Some((tracked_slot - 1) as u64)
    } else {
        None
    }
}

/// The tracked slot after an update: the larger of the tracked slot and the
/// slot the update carries, where it carries one.
pub open spec fn track(tracked_slot: u64, update: Update) -> u64 {
    match update.spec_slot() {
        Some(slot) => if slot > tracked_slot {
            slot
        } else {
            tracked_slot
        },
        None => tracked_slot,
    }
}

/// The interval around which the delay is drawn when a connection is given
/// up: the initial interval where the connection delivered something but
/// keepalives, else the interval the delay policy has grown to.
pub open spec fn sleep_interval(state: ManagerState) -> int {
    if state.saw_non_heartbeat {
        INITIAL_INTERVAL_NANOS as int
    } else {
        state.interval_nanos
    }
}

/// The state when a connection is given up: a connection that delivered
/// something but keepalives earns a fresh delay policy, one delay is taken,
/// and the interval grows from where the delay was drawn. What the
/// connection delivered does not count for the next one.
pub open spec fn give_up(state: ManagerState, phase: Phase) -> ManagerState {
    ManagerState {
        phase,
        tracked_slot: state.tracked_slot,
        saw_non_heartbeat: false,
        delays_taken: if state.saw_non_heartbeat {
            1
        } else {
            bump(state.delays_taken)
        },
        interval_nanos: grown(sleep_interval(state)),
    }
}

/// The state after an item of the stream, and what to do with the item.
pub open spec fn receive(state: ManagerState, update: Update) -> (ManagerState, Reaction) {
    if update is Ping {
        (state, Reaction::Acknowledge)
    } else if update is Pong {
        (state, Reaction::Continue)
    } else {
        (
            ManagerState {
                phase: state.phase,
                tracked_slot: track(state.tracked_slot, update),
                saw_non_heartbeat: true,
                delays_taken: state.delays_taken,
                interval_nanos: state.interval_nanos,
            },
            Reaction::Forward,
        )
    }
}

/// The transition function. An item of the stream is taken in every
/// phase. Any other event that has no meaning in the current phase changes
/// nothing.
pub open spec fn step(state: ManagerState, event: Event) -> (ManagerState, Reaction) {
    match event {
        Event::Received(update) => receive(state, update),
        Event::Start => if state.phase is Idle {
            (ManagerState { phase: Phase::Connecting, ..state }, Reaction::Connect)
        } else {
            (state, Reaction::Continue)
        },
        Event::Connected => if state.phase is Connecting {
            (
                ManagerState { phase: Phase::Subscribed, saw_non_heartbeat: false, ..state },
                Reaction::Subscribe { from_slot: resume_point(state.tracked_slot) },
            )
        } else {
            (state, Reaction::Continue)
        },
        Event::ConnectFailed => if state.phase is Connecting {
            (give_up(state, Phase::Failed), Reaction::Sleep)
        } else {
            (state, Reaction::Continue)
        },
        Event::SubscribeFailed => if state.phase is Subscribed {
            (give_up(state, Phase::Failed), Reaction::Sleep)
        } else {
            (state, Reaction::Continue)
        },
        Event::AckFailed => if state.phase is Subscribed {
            (give_up(state, Phase::Failed), Reaction::Sleep)
        } else {
            (state, Reaction::Continue)
        },
        Event::StreamError => if state.phase is Subscribed {
            (give_up(state, Phase::Failed), Reaction::Sleep)
        } else {
            (state, Reaction::Continue)
        },
        Event::StreamEnded => if state.phase is Subscribed {
            (give_up(state, Phase::Draining), Reaction::Sleep)
        } else {
            (state, Reaction::Continue)
        },
        Event::DelayElapsed => if state.phase is Draining || state.phase is Failed {
            (ManagerState { phase: Phase::Connecting, ..state }, Reaction::Connect)
        } else {
            (state, Reaction::Continue)
        },
    }
}

/// The state after a run of events, first to last.
pub open spec fn run(state: ManagerState, events: Seq<Event>) -> ManagerState
    decreases events.len(),
{
    if events.len() == 0 {
        state
    } else {
        step(run(state, events.drop_last()), events.last()).0
    }
}

impl Action {
    /// What kind of action this is.
    pub open spec fn reaction(&self) -> Reaction {
        match *self {
            Action::Connect => Reaction::Connect,
            Action::Subscribe { from_slot } => Reaction::Subscribe { from_slot },
            Action::Acknowledge => Reaction::Acknowledge,
            Action::Forward(_) => Reaction::Forward,
            Action::Continue => Reaction::Continue,
            Action::Sleep(_) => Reaction::Sleep,
        }
    }
}

/// Computes the slot a new subscription resumes from.
pub fn resume_from(tracked_slot: u64) -> (from_slot: Option<u64>)
    ensures
        from_slot == resume_point(tracked_slot),
{
    if tracked_slot > 0 {
        Some(tracked_slot - 1)
    } else {
        None
    }
}

/// Raises the tracked slot to the slot of `update` where that is higher.
pub fn update_tracked_slot(update: &Update, tracked_slot: &mut u64)
    ensures
        *final(tracked_slot) == track(*old(tracked_slot), *update),
{
    if let Some(slot) = update.slot() {
        if slot > *tracked_slot {
            *tracked_slot = slot;
        }
    }
}

/// One logical subscription: where its connection stands, the highest slot
/// it has seen, and its delay policy.
pub struct ConnectionManager {
    phase: Phase,
    tracked_slot: u64,
    saw_non_heartbeat: bool,
    backoff: ReconnectBackoff,
}

impl View for ConnectionManager {
    type V = ManagerState;

    closed spec fn view(&self) -> ManagerState {
        ManagerState {
            phase: self.phase,
            tracked_slot: self.tracked_slot,
            saw_non_heartbeat: self.saw_non_heartbeat,
            delays_taken: self.backoff.spec_taken(),
            interval_nanos: self.backoff.spec_interval(),
        }
    }
}

impl ConnectionManager {
    /// A manager that has not started and has seen no slot.
    pub fn new() -> (manager: Self)
        ensures
            manager@ == (ManagerState {
                phase: Phase::Idle,
                tracked_slot: 0,
                saw_non_heartbeat: false,
                delays_taken: 0,
                interval_nanos: INITIAL_INTERVAL_NANOS as int,
            }),
    {
        ConnectionManager {
            phase: Phase::Idle,
            tracked_slot: 0,
            saw_non_heartbeat: false,
            backoff: ReconnectBackoff::new(),
        }
    }

    pub fn phase(&self) -> (phase: Phase)
        ensures
            phase == self@.phase,
    {
        self.phase
    }

    pub fn tracked_slot(&self) -> (slot: u64)
        ensures
            slot == self@.tracked_slot,
    {
        self.tracked_slot
    }

    pub fn saw_non_heartbeat(&self) -> (seen: bool)
        ensures
            seen == self@.saw_non_heartbeat,
    {
        self.saw_non_heartbeat
    }

    /// Delays taken since the delay policy last started afresh.
    pub fn delays_taken(&self) -> (taken: u64)
        ensures
            taken == self@.delays_taken,
    {
        self.backoff.taken()
    }

    /// Gives up the connection: resets the delay policy where the
    /// connection made progress, then takes the next delay.
    fn back_off(&mut self, phase: Phase) -> (action: Action)
        ensures
            final(self)@ == give_up(old(self)@, phase),
            action is Sleep,
            action->Sleep_0.nanos < 1_000_000_000,
            drawn_around(total_nanos(action->Sleep_0), sleep_interval(old(self)@)),
    {
        if self.saw_non_heartbeat {
            self.backoff.reset();
        }
        let delay = self.backoff.next_delay();
        self.saw_non_heartbeat = false;
        self.phase = phase;
        Action::Sleep(delay)
    }

    /// Takes one event and returns what to do next.
    ///
    /// The state changes, and the kind of action is chosen, exactly as
    /// [`step`] says. An update to forward is handed back unchanged. A
    /// delay is drawn by the delay policy around the interval that
    /// [`sleep_interval`] gives.
    pub fn handle(&mut self, event: Event) -> (action: Action)
        ensures
            (final(self)@, action.reaction()) == step(old(self)@, event),
            event matches Event::Received(update) ==> (action matches Action::Forward(forwarded)
                ==> forwarded == update),
            action matches Action::Sleep(delay) ==> delay.nanos < 1_000_000_000 && drawn_around(
                total_nanos(delay),
                sleep_interval(old(self)@),
            ),
    {
        match event {
            Event::Received(update) => {
                match update {
                    Update::Ping => Action::Acknowledge,
                    Update::Pong => Action::Continue,
                    _ => {
                        update_tracked_slot(&update, &mut self.tracked_slot);
                        self.saw_non_heartbeat = true;
                        Action::Forward(update)
                    },
                }
            },
            Event::Start => {
                if let Phase::Idle = self.phase {
                    self.phase = Phase::Connecting;
                    Action::Connect
                } else {
                    Action::Continue
                }
            },
            Event::Connected => {
                if let Phase::Connecting = self.phase {
                    self.phase = Phase::Subscribed;
                    self.saw_non_heartbeat = false;
                    Action::Subscribe { from_slot: resume_from(self.tracked_slot) }
                } else {
                    Action::Continue
                }
            },
            Event::ConnectFailed => {
                if let Phase::Connecting = self.phase {
                    self.back_off(Phase::Failed)
                } else {
                    Action::Continue
                }
            },
            Event::SubscribeFailed => {
                if let Phase::Subscribed = self.phase {
                    self.back_off(Phase::Failed)
                } else {
                    Action::Continue
                }
            },
            Event::AckFailed => {
                if let Phase::Subscribed = self.phase {
                    self.back_off(Phase::Failed)
                } else {
                    Action::Continue
                }
            },
            Event::StreamError => {
                if let Phase::Subscribed = self.phase {
                    self.back_off(Phase::Failed)
                } else {
                    Action::Continue
                }
            },
            Event::StreamEnded => {
                if let Phase::Subscribed = self.phase {
                    self.back_off(Phase::Draining)
                } else {
                    Action::Continue
                }
            },
            Event::DelayElapsed => {
                match self.phase {
                    Phase::Draining => {
                        self.phase = Phase::Connecting;
                        Action::Connect
                    },
                    Phase::Failed => {
                        self.phase = Phase::Connecting;
                        Action::Connect
                    },
                    _ => Action::Continue,
                }
            },
        }
    }
}

/// The slot that an event delivers, where it delivers one.
pub open spec fn delivered_slot(event: Event) -> Option<u64> {
    match event {
        Event::Received(update) => update.spec_slot(),
        _ => None,
    }
}

/// After any run of events the tracked slot is the maximum of the slot
/// tracked before and the slots of all updates delivered: it is at least
/// each of them, and it is one of them.
pub proof fn lemma_tracked_slot_is_highest(state: ManagerState, events: Seq<Event>)
    ensures
        run(state, events).tracked_slot >= state.tracked_slot,
        forall|i: int|
            0 <= i < events.len() ==> (delivered_slot(#[trigger] events[i]) matches Some(slot)
                ==> run(state, events).tracked_slot >= slot),
        run(state, events).tracked_slot == state.tracked_slot || exists|i: int|
            0 <= i < events.len() && delivered_slot(#[trigger] events[i]) == Some(
                run(state, events).tracked_slot,
            ),
    decreases events.len(),
{
    if events.len() > 0 {
        let earlier = events.drop_last();
        let before = run(state, earlier);
        let after = run(state, events);
        lemma_tracked_slot_is_highest(state, earlier);
        assert(after.tracked_slot >= before.tracked_slot);
        assert forall|i: int| 0 <= i < events.len() implies (delivered_slot(
            #[trigger] events[i],
        ) matches Some(slot) ==> after.tracked_slot >= slot) by {
            if i < earlier.len() {
                assert(earlier[i] == events[i]);
            }
        }
        if after.tracked_slot != state.tracked_slot {
            if after.tracked_slot == before.tracked_slot {
                let i = choose|i: int|
                    0 <= i < earlier.len() && delivered_slot(#[trigger] earlier[i]) == Some(
                        before.tracked_slot,
                    );
                assert(events[i] == earlier[i]);
            } else {
                assert(delivered_slot(events[events.len() - 1]) == Some(after.tracked_slot));
            }
        }
    }
}

/// A ping or a pong leaves the whole state as it was, the tracked slot
/// included.
pub proof fn lemma_heartbeat_changes_nothing(state: ManagerState, update: Update)
    requires
        update.spec_is_heartbeat(),
    ensures
        step(state, Event::Received(update)).0 == state,
{
}

/// When a connection has been opened, the subscribe request resumes one
/// slot below the tracked slot; with no slot tracked it names no resume
/// point.
pub proof fn lemma_resume_overlaps_one_slot(state: ManagerState)
    requires
        state.phase is Connecting,
    ensures
        state.tracked_slot > 0 ==> step(state, Event::Connected).1 == (Reaction::Subscribe {
            from_slot: Some((state.tracked_slot - 1) as u64),
        }),
        state.tracked_slot == 0 ==> step(state, Event::Connected).1 == (Reaction::Subscribe {
            from_slot: None,
        }),
{
}

/// The state machine has no terminal state: from every phase some event
/// leads on, and the manager never returns to `Idle`.
pub proof fn lemma_never_idle_again(state: ManagerState, event: Event)
    requires
        !(state.phase is Idle),
    ensures
        !(step(state, event).0.phase is Idle),
{
}

} // verus!
