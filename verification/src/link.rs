//! The link session: from discovery of the peripheral to streaming.
//!
//! A session is a state machine. The caller does the radio work and reports
//! what came of it as an event; the session answers with its next state and
//! the action that the caller is to take. A session makes one attempt: a
//! failure abandons it, and nothing is retried.

use crate::text::{contains, spec_contains, to_chars};
use vstd::prelude::*;

verus! {

/// Where a session stands.
#[derive(Clone, Copy, Debug, PartialEq, Eq, Structural)]
pub enum LinkState {
    /// Nothing has been done yet.
    Idle,
    /// A scan for peripherals is running.
    Scanning,
    /// The scan found at least one peripheral.
    DeviceFound,
    /// A connection to the selected peripheral is being made.
    Connecting,
    /// The connection stands; its services are being discovered.
    Connected,
    /// The services are known; the write target is being located.
    ServiceDiscovered,
    /// Telemetry is sent, tick after tick.
    Streaming,
    /// The session was ended on request and the peripheral released.
    Disconnected,
    /// The session was abandoned.
    Failed,
}

/// Why a session was abandoned.
#[derive(Clone, Copy, Debug, PartialEq, Eq, Structural)]
pub enum FailureReason {
    /// The host has no radio adapter that can be used.
    NoAdapter,
    /// The scan window passed and no peripheral was seen.
    NoDevices,
    /// No peripheral advertises a recognized name.
    NoMatchingDevice,
    /// The connection could not be made.
    ConnectFailed,
    /// The services could not be discovered.
    DiscoveryFailed,
    /// The peripheral does not offer the write target.
    CharacteristicMissing,
    /// The radio failed beyond recovery.
    TransportError,
}

/// What the caller reports to the session.
#[derive(Clone, Copy, Debug, PartialEq, Eq, Structural)]
pub enum LinkEvent {
    /// The session is to begin.
    Start,
    /// The session cannot begin: the host has no radio adapter that can be
    /// used.
    AdapterUnavailable,
    /// The scan window has passed; `discovered` peripherals were seen.
    ScanWindowElapsed { discovered: usize },
    /// The candidates were looked through; `selected` is the index of the
    /// one chosen, if any.
    CandidatesEvaluated { selected: Option<usize> },
    /// The attempt to connect has ended.
    ConnectResolved { connected: bool },
    /// The discovery of services has ended.
    DiscoveryResolved { resolved: bool },
    /// The search for the write target has ended.
    CharacteristicLocated { found: bool },
    /// One tick of the transport loop has ended; `delivered` tells whether
    /// its write succeeded.
    TickDone { delivered: bool },
    /// The caller asks for the stream to stop.
    StopRequested,
    /// The radio failed beyond recovery.
    TransportFailed,
}

/// What the session asks of the caller.
#[derive(Clone, Copy, Debug, PartialEq, Eq, Structural)]
pub enum LinkAction {
    /// Nothing: the event does not concern the session in its state.
    Nothing,
    /// Start an unfiltered scan and report when the scan window has passed.
    StartScan,
    /// Look through the peripherals seen and report the one selected.
    EvaluateCandidates,
    /// Connect to the candidate with this index.
    Connect { candidate: usize },
    /// Discover the services of the connected peripheral.
    DiscoverServices,
    /// Locate the write target among the characteristics.
    LocateCharacteristic,
    /// Take a sample, encode it, write it without waiting for an
    /// acknowledgement, wait out the interval and report the tick.
    SendTelemetry,
    /// Release the peripheral.
    Disconnect,
    /// Give the session up for this reason and go on without a sink;
    /// release the peripheral first where `disconnect` is set.
    Abandon { reason: FailureReason, disconnect: bool },
}

/// Whether a connection to the peripheral stands in `state`.
pub open spec fn holds_connection(state: LinkState) -> bool {
    state == LinkState::Connected || state == LinkState::ServiceDiscovered || state
        == LinkState::Streaming
}

/// The transition relation: the state that follows `state` on `event`, and
/// the action asked of the caller.
///
/// A radio failure abandons every session that is not abandoned yet. Any
/// other event moves the session only from the state that waits for it;
/// elsewhere it changes nothing.
pub open spec fn spec_step(state: LinkState, event: LinkEvent) -> (LinkState, LinkAction) {
    match (state, event) {
        (LinkState::Failed, _) => (LinkState::Failed, LinkAction::Nothing),
        (_, LinkEvent::TransportFailed) => (
            LinkState::Failed,
            LinkAction::Abandon {
                reason: FailureReason::TransportError,
                disconnect: holds_connection(state),
            },
        ),
        (LinkState::Idle, LinkEvent::Start) => (LinkState::Scanning, LinkAction::StartScan),
        (LinkState::Idle, LinkEvent::AdapterUnavailable) => (
            LinkState::Failed,
            LinkAction::Abandon { reason: FailureReason::NoAdapter, disconnect: false },
        ),
        (LinkState::Scanning, LinkEvent::ScanWindowElapsed { discovered }) => if discovered == 0 {
            (
                LinkState::Failed,
                LinkAction::Abandon { reason: FailureReason::NoDevices, disconnect: false },
            )
        } else {
            (LinkState::DeviceFound, LinkAction::EvaluateCandidates)
        },
        (LinkState::DeviceFound, LinkEvent::CandidatesEvaluated { selected }) => match selected {
            Some(candidate) => (LinkState::Connecting, LinkAction::Connect { candidate }),
            None => (
                LinkState::Failed,
                LinkAction::Abandon { reason: FailureReason::NoMatchingDevice, disconnect: false },
            ),
        },
        (LinkState::Connecting, LinkEvent::ConnectResolved { connected }) => if connected {
            (LinkState::Connected, LinkAction::DiscoverServices)
        } else {
            (
                LinkState::Failed,
                LinkAction::Abandon { reason: FailureReason::ConnectFailed, disconnect: false },
            )
        },
        (LinkState::Connected, LinkEvent::DiscoveryResolved { resolved }) => if resolved {
            (LinkState::ServiceDiscovered, LinkAction::LocateCharacteristic)
        } else {
            (
                LinkState::Failed,
                LinkAction::Abandon { reason: FailureReason::DiscoveryFailed, disconnect: true },
            )
        },
        (LinkState::ServiceDiscovered, LinkEvent::CharacteristicLocated { found }) => if found {
            (LinkState::Streaming, LinkAction::SendTelemetry)
        } else {
            (
                LinkState::Failed,
                LinkAction::Abandon {
                    reason: FailureReason::CharacteristicMissing,
                    disconnect: true,
                },
            )
        },
        (LinkState::Streaming, LinkEvent::TickDone { delivered }) => (
            LinkState::Streaming,
            LinkAction::SendTelemetry,
        ),
        (LinkState::Streaming, LinkEvent::StopRequested) => (
            LinkState::Disconnected,
            LinkAction::Disconnect,
        ),
        _ => (state, LinkAction::Nothing),
    }
}

/// The state that a session reaches from `state` through `events`.
pub open spec fn spec_run(state: LinkState, events: Seq<LinkEvent>) -> LinkState
    decreases events.len(),
{
    if events.len() == 0 {
        state
    } else {
        spec_run(spec_step(state, events[0]).0, events.drop_first())
    }
}

/// Takes one step of a session.
pub fn step(state: LinkState, event: LinkEvent) -> (r: (LinkState, LinkAction))
    ensures
        r == spec_step(state, event),
{
    if let LinkState::Failed = state {
        return (LinkState::Failed, LinkAction::Nothing);
    }
    if let LinkEvent::TransportFailed = event {
        let disconnect = match state {
            LinkState::Connected | LinkState::ServiceDiscovered | LinkState::Streaming => true,
            _ => false,
        };
        return (
            LinkState::Failed,
            LinkAction::Abandon { reason: FailureReason::TransportError, disconnect },
        );
    }
    match (state, event) {
        (LinkState::Idle, LinkEvent::Start) => (LinkState::Scanning, LinkAction::StartScan),
        (LinkState::Idle, LinkEvent::AdapterUnavailable) => (
            LinkState::Failed,
            LinkAction::Abandon { reason: FailureReason::NoAdapter, disconnect: false },
        ),
        (LinkState::Scanning, LinkEvent::ScanWindowElapsed { discovered }) => {
            if discovered == 0 {
                (
                    LinkState::Failed,
                    LinkAction::Abandon { reason: FailureReason::NoDevices, disconnect: false },
                )
            } else {
                (LinkState::DeviceFound, LinkAction::EvaluateCandidates)
            }
        },
        (LinkState::DeviceFound, LinkEvent::CandidatesEvaluated { selected }) => {
            match selected {
                Some(candidate) => (LinkState::Connecting, LinkAction::Connect { candidate }),
                None => (
                    LinkState::Failed,
                    LinkAction::Abandon {
                        reason: FailureReason::NoMatchingDevice,
                        disconnect: false,
                    },
                ),
            }
        },
        (LinkState::Connecting, LinkEvent::ConnectResolved { connected }) => {
            if connected {
                (LinkState::Connected, LinkAction::DiscoverServices)
            } else {
                (
                    LinkState::Failed,
                    LinkAction::Abandon { reason: FailureReason::ConnectFailed, disconnect: false },
                )
            }
        },
        (LinkState::Connected, LinkEvent::DiscoveryResolved { resolved }) => {
            if resolved {
                (LinkState::ServiceDiscovered, LinkAction::LocateCharacteristic)
            } else {
                (
                    LinkState::Failed,
                    LinkAction::Abandon { reason: FailureReason::DiscoveryFailed, disconnect: true },
                )
            }
        },
        (LinkState::ServiceDiscovered, LinkEvent::CharacteristicLocated { found }) => {
            if found {
                (LinkState::Streaming, LinkAction::SendTelemetry)
            } else {
                (
                    LinkState::Failed,
                    LinkAction::Abandon {
                        reason: FailureReason::CharacteristicMissing,
                        disconnect: true,
                    },
                )
            }
        },
        (LinkState::Streaming, LinkEvent::TickDone { delivered: _ }) => (
            LinkState::Streaming,
            LinkAction::SendTelemetry,
        ),
        (LinkState::Streaming, LinkEvent::StopRequested) => (
            LinkState::Disconnected,
            LinkAction::Disconnect,
        ),
        _ => (state, LinkAction::Nothing),
    }
}

/// The state that follows `state` on the way from start to release.
pub open spec fn successor(state: LinkState) -> LinkState {
    match state {
        LinkState::Idle => LinkState::Scanning,
        LinkState::Scanning => LinkState::DeviceFound,
        LinkState::DeviceFound => LinkState::Connecting,
        LinkState::Connecting => LinkState::Connected,
        LinkState::Connected => LinkState::ServiceDiscovered,
        LinkState::ServiceDiscovered => LinkState::Streaming,
        LinkState::Streaming => LinkState::Disconnected,
        LinkState::Disconnected => LinkState::Disconnected,
        LinkState::Failed => LinkState::Failed,
    }
}

/// The ticks of a transport loop whose writes ended as `outcomes` tell.
pub open spec fn ticks(outcomes: Seq<bool>) -> Seq<LinkEvent> {
    Seq::new(outcomes.len(), |i: int| LinkEvent::TickDone { delivered: outcomes[i] })
}

/// A step keeps the state, moves it to the state that follows it, or
/// abandons the session: no state is passed over and none is gone back to.
pub proof fn lemma_steps_are_sequential(state: LinkState, event: LinkEvent)
    ensures
        spec_step(state, event).0 == state || spec_step(state, event).0 == successor(state)
            || spec_step(state, event).0 == LinkState::Failed,
{
}

/// Telemetry is asked for only of a session that streams: the transport
/// loop runs in that state and in no other.
pub proof fn lemma_telemetry_only_while_streaming(state: LinkState, event: LinkEvent)
    ensures
        spec_step(state, event).1 == LinkAction::SendTelemetry ==> spec_step(state, event).0
            == LinkState::Streaming,
{
}

/// A session is abandoned with a reason, once: a step asks to abandon
/// exactly when it takes a session that was not abandoned to failure.
pub proof fn lemma_abandon_iff_failure(state: LinkState, event: LinkEvent)
    ensures
        spec_step(state, event).1 is Abandon <==> state != LinkState::Failed && spec_step(
            state,
            event,
        ).0 == LinkState::Failed,
{
}

/// Running through two runs of events is running through the first and,
/// from where that ends, through the second.
pub proof fn lemma_run_append(state: LinkState, first: Seq<LinkEvent>, second: Seq<LinkEvent>)
    ensures
        spec_run(state, first + second) == spec_run(spec_run(state, first), second),
    decreases first.len(),
{
    if first.len() > 0 {
        assert((first + second).drop_first() =~= first.drop_first() + second);
        lemma_run_append(spec_step(state, first[0]).0, first.drop_first(), second);
    }
}

/// An abandoned session stays abandoned, whatever is reported to it, and
/// asks for nothing more.
pub proof fn lemma_failed_is_final(events: Seq<LinkEvent>)
    ensures
        spec_run(LinkState::Failed, events) == LinkState::Failed,
        forall|event: LinkEvent| #[trigger]
            spec_step(LinkState::Failed, event) == (LinkState::Failed, LinkAction::Nothing),
    decreases events.len(),
{
    if events.len() > 0 {
        lemma_failed_is_final(events.drop_first());
    }
}

/// A session whose scan sees no peripheral within the scan window is
/// abandoned for that reason, and nothing reported later revives it.
pub proof fn lemma_empty_scan_fails(later: Seq<LinkEvent>)
    ensures
        spec_step(LinkState::Scanning, LinkEvent::ScanWindowElapsed { discovered: 0 }) == (
            LinkState::Failed,
            LinkAction::Abandon { reason: FailureReason::NoDevices, disconnect: false },
        ),
        spec_run(
            LinkState::Idle,
            seq![LinkEvent::Start, LinkEvent::ScanWindowElapsed { discovered: 0 }] + later,
        ) == LinkState::Failed,
{
    let opening = seq![LinkEvent::Start, LinkEvent::ScanWindowElapsed { discovered: 0 }];
    assert(spec_run(LinkState::Idle, opening) == LinkState::Failed) by {
        reveal_with_fuel(spec_run, 3);
    }
    lemma_run_append(LinkState::Idle, opening, later);
    lemma_failed_is_final(later);
}

/// Failed writes do not end the stream: after any ticks, however their
/// writes ended, the session still streams, and after each of them it asks
/// for the next delivery.
pub proof fn lemma_stream_survives_write_failures(outcomes: Seq<bool>)
    ensures
        spec_run(LinkState::Streaming, ticks(outcomes)) == LinkState::Streaming,
        forall|delivered: bool| #[trigger]
            spec_step(LinkState::Streaming, LinkEvent::TickDone { delivered }) == (
                LinkState::Streaming,
                LinkAction::SendTelemetry,
            ),
    decreases outcomes.len(),
{
    if outcomes.len() > 0 {
        assert(ticks(outcomes).drop_first() =~= ticks(outcomes.drop_first()));
        lemma_stream_survives_write_failures(outcomes.drop_first());
    }
}

/// A request to stop ends the stream with the release of the peripheral,
/// and no tick reported after it asks for another delivery.
pub proof fn lemma_stop_halts_stream(delivered: bool)
    ensures
        spec_step(LinkState::Streaming, LinkEvent::StopRequested) == (
            LinkState::Disconnected,
            LinkAction::Disconnect,
        ),
        spec_step(LinkState::Disconnected, LinkEvent::TickDone { delivered }) == (
            LinkState::Disconnected,
            LinkAction::Nothing,
        ),
{
}

/// Whether an advertised name is that of the peripheral looked for: it
/// holds `PC Mon` or `Flipper`, in exactly this case.
pub open spec fn is_recognized(name: Seq<char>) -> bool {
    spec_contains(name, "PC Mon"@) || spec_contains(name, "Flipper"@)
}

/// Whether a candidate is the peripheral looked for. One that advertises no
/// name is not.
pub open spec fn candidate_matches(name: Option<String>) -> bool {
    match name {
        Some(n) => is_recognized(n@),
        None => false,
    }
}

/// Tests whether an advertised name is that of the peripheral looked for.
pub fn is_recognized_name(name: &str) -> (r: bool)
    ensures
        r == is_recognized(name@),
{
    let chars = to_chars(name);
    let pc_mon = to_chars("PC Mon");
    let flipper = to_chars("Flipper");
    contains(chars.as_slice(), pc_mon.as_slice()) || contains(chars.as_slice(), flipper.as_slice())
}

/// Selects the first candidate whose advertised name is recognized; `names`
/// holds the name of each candidate, or `None` for one that advertises
/// none.
pub fn select_candidate(names: &[Option<String>]) -> (r: Option<usize>)
    ensures
        match r {
            Some(i) => i < names@.len() && candidate_matches(names@[i as int]) && forall|j: int|
                0 <= j < i ==> !candidate_matches(#[trigger] names@[j]),
            None => forall|j: int| 0 <= j < names@.len() ==> !candidate_matches(#[trigger] names@[j]),
        },
{
    let mut i: usize = 0;
    while i < names.len()
        invariant
            i <= names@.len(),
            forall|j: int| 0 <= j < i ==> !candidate_matches(#[trigger] names@[j]),
        decreases names@.len() - i,
    {
        let matches = match &names[i] {
            Some(name) => is_recognized_name(name.as_str()),
            None => false,
        };
        if matches {
            return Some(i);
        }
        i += 1;
    }
    None
}

/// Locates the write target: the first characteristic whose 128-bit
/// identifier is `target`.
pub fn find_characteristic(identifiers: &[u128], target: u128) -> (r: Option<usize>)
    ensures
        match r {
            Some(i) => i < identifiers@.len() && identifiers@[i as int] == target && forall|j: int|
                0 <= j < i ==> identifiers@[j] != target,
            None => forall|j: int| 0 <= j < identifiers@.len() ==> identifiers@[j] != target,
        },
{
    let mut i: usize = 0;
    while i < identifiers.len()
        invariant
            i <= identifiers@.len(),
            forall|j: int| 0 <= j < i ==> identifiers@[j] != target,
        decreases identifiers@.len() - i,
    {
        if identifiers[i] == target {
            return Some(i);
        }
        i += 1;
    }
    None
}

impl FailureReason {
    /// The reason in words.
    pub open spec fn spec_message(self) -> Seq<char> {
        match self {
            FailureReason::NoAdapter => "No Bluetooth adapter found"@,
            FailureReason::NoDevices => "No Bluetooth devices found"@,
            FailureReason::NoMatchingDevice => "No Flipper Zero device found with 'PC Mon' in name"@,
            FailureReason::ConnectFailed => "Could not connect to the Flipper Zero"@,
            FailureReason::DiscoveryFailed => "Could not discover the services of the Flipper Zero"@,
            FailureReason::CharacteristicMissing => "Could not find Flipper characteristic UUID"@,
            FailureReason::TransportError => "The Bluetooth adapter failed"@,
        }
    }

    /// Gives the reason in words, for the operator.
    pub fn message(&self) -> (r: String)
        ensures
            r@ == self.spec_message(),
    {
        let text: &str = match self {
            FailureReason::NoAdapter => "No Bluetooth adapter found",
            FailureReason::NoDevices => "No Bluetooth devices found",
            FailureReason::NoMatchingDevice => "No Flipper Zero device found with 'PC Mon' in name",
            FailureReason::ConnectFailed => "Could not connect to the Flipper Zero",
            FailureReason::DiscoveryFailed => "Could not discover the services of the Flipper Zero",
            FailureReason::CharacteristicMissing => "Could not find Flipper characteristic UUID",
            FailureReason::TransportError => "The Bluetooth adapter failed",
        };
        text.to_owned()
    }
}

/// One attempt to reach the peripheral and stream to it. Its view is the
/// state it stands in.
#[derive(Debug)]
pub struct LinkSession {
    state: LinkState,
}

impl View for LinkSession {
    type V = LinkState;

    closed spec fn view(&self) -> LinkState {
        self.state
    }
}

impl LinkSession {
    /// A session that has not begun.
    pub fn new() -> (r: LinkSession)
        ensures
            r@ == LinkState::Idle,
    {
        LinkSession { state: LinkState::Idle }
    }

    /// The state of the session.
    pub fn state(&self) -> (r: LinkState)
        ensures
            r == self@,
    {
        self.state
    }

    /// Whether the transport loop is to run: the session is streaming.
    pub fn is_streaming(&self) -> (r: bool)
        ensures
            r == (self@ == LinkState::Streaming),
    {
        match self.state {
            LinkState::Streaming => true,
            _ => false,
        }
    }

    /// Whether the session has ended, by request or by failure.
    pub fn is_over(&self) -> (r: bool)
        ensures
            r == (self@ == LinkState::Disconnected || self@ == LinkState::Failed),
    {
        match self.state {
            LinkState::Disconnected | LinkState::Failed => true,
            _ => false,
        }
    }

    /// Reports `event` to the session, which moves on and names the action
    /// to take.
    pub fn handle(&mut self, event: LinkEvent) -> (action: LinkAction)
        ensures
            (final(self)@, action) == spec_step(old(self)@, event),
    {
        let (next, action) = step(self.state, event);
        self.state = next;
        action
    }
}

} // verus!
