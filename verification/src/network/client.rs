//! What a node says to the registry and to its peers: how often it tries to
//! connect, how it frames what it sends, and how a conversation goes on.

use vstd::prelude::*;
use vstd::string::StringExecFns;

use crate::ident::Id;
use crate::network::server::ServerRequest;
use crate::routing::engine::RoutingEngine;
use crate::routing::model::{Bundle, BundleKind, BundleKindView, BundleView, Node};

verus! {

/// How often a connection is tried.
pub const CONNECT_ATTEMPTS: u32 = 3;

/// The seconds between two tries.
pub const RETRY_DELAY_SECS: u64 = 1;

/// The address of the registry that is used where none is named: the one where the
/// registry of this machine listens.
pub open spec fn default_registry_text() -> Seq<char> {
    "127.0.0.1:9100"@
}

/// The address of the registry that is used where none is named, and where the
/// registry of this machine listens.
pub fn default_registry_addr() -> (address: &'static str)
    ensures
        address@ == default_registry_text(),
{
    "127.0.0.1:9100"
}

/// The registry to connect to: the one that is named, or the default.
pub open spec fn registry_text(server_addr: Option<&str>) -> Seq<char> {
    match server_addr {
        Some(named) => named@,
        None => default_registry_text(),
    }
}

/// The registry to connect to: the one that is named, or the default.
pub fn registry_address<'a>(server_addr: Option<&'a str>) -> (address: &'a str)
    ensures
        address@ == registry_text(server_addr),
{
    match server_addr {
        Some(named) => named,
        None => default_registry_addr(),
    }
}

/// What a node that wants a connection does next.
#[derive(Clone, Copy, Debug, PartialEq, Eq, Structural)]
pub enum ConnectStep {
    /// Wait the given seconds, then try for the given time, counted from one.
    Try { attempt: u32, delay_secs: u64 },
    /// Go on with the connection.
    Connected,
    /// Give up.
    Exhausted,
}

/// The first thing that a node does for a connection.
pub open spec fn first_try(max_retries: u32) -> ConnectStep {
    if max_retries == 0 {
        ConnectStep::Exhausted
    } else {
        ConnectStep::Try { attempt: 1, delay_secs: 0 }
    }
}

/// What a node does after a try: a connection is used at once; after the last
/// failure it gives up, after any other it waits and tries again.
pub open spec fn after_try(
    step: ConnectStep,
    max_retries: u32,
    delay_secs: u64,
    connected: bool,
) -> ConnectStep {
    match step {
        ConnectStep::Try { attempt, .. } => {
            if connected {
                ConnectStep::Connected
            } else if attempt < max_retries {
                ConnectStep::Try { attempt: (attempt + 1) as u32, delay_secs }
            } else {
                ConnectStep::Exhausted
            }
        },
        _ => step,
    }
}

/// What a node does after a number of tries, each of which connected or did not.
pub open spec fn after_tries(
    max_retries: u32,
    delay_secs: u64,
    outcomes: Seq<bool>,
) -> ConnectStep
    decreases outcomes.len(),
{
    if outcomes.len() == 0 {
        first_try(max_retries)
    } else {
        after_try(
            after_tries(max_retries, delay_secs, outcomes.drop_last()),
            max_retries,
            delay_secs,
            outcomes.last(),
        )
    }
}

/// The first try for a connection.
pub fn start_connecting(max_retries: u32) -> (step: ConnectStep)
    ensures
        step == first_try(max_retries),
{
    if max_retries == 0 {
        ConnectStep::Exhausted
    } else {
        ConnectStep::Try { attempt: 1, delay_secs: 0 }
    }
}

/// What to do once a try has connected or has not. Where no try was due, nothing
/// changes.
pub fn connect_with_retry(
    step: ConnectStep,
    max_retries: u32,
    delay_secs: u64,
    connected: bool,
) -> (next: ConnectStep)
    ensures
        next == after_try(step, max_retries, delay_secs, connected),
{
    match step {
        ConnectStep::Try { attempt, .. } => {
            if connected {
                ConnectStep::Connected
            } else if attempt < max_retries {
                ConnectStep::Try { attempt: attempt + 1, delay_secs }
            } else {
                ConnectStep::Exhausted
            }
        },
        _ => step,
    }
}

/// What a node tells the registry to be listed as connected.
pub fn registration_request(node: Node) -> (request: ServerRequest)
    ensures
        request == ServerRequest::Register(node),
{
    ServerRequest::Register(node)
}

/// What the registry is asked to learn which of some nodes are connected; with none
/// named, which of all.
pub fn peers_request(ids: Vec<Id>) -> (request: ServerRequest)
    ensures
        request == ServerRequest::GetConnectedPeers(ids),
{
    ServerRequest::GetConnectedPeers(ids)
}

/// How far a node has come with its registration.
#[derive(Clone, Copy, Debug, PartialEq, Eq, Structural)]
pub enum RegistrationStage {
    Connecting,
    Encoding,
    Sending,
    AwaitingReply,
    Registered,
    Failed,
}

/// The stage after a step that succeeded or failed. The reply does not matter:
/// once the request was sent, the node counts as registered.
pub open spec fn registration_next(stage: RegistrationStage, succeeded: bool) -> RegistrationStage {
    match stage {
        RegistrationStage::Connecting => if succeeded {
            RegistrationStage::Encoding
        } else {
            RegistrationStage::Failed
        },
        RegistrationStage::Encoding => if succeeded {
            RegistrationStage::Sending
        } else {
            RegistrationStage::Failed
        },
        RegistrationStage::Sending => if succeeded {
            RegistrationStage::AwaitingReply
        } else {
            RegistrationStage::Failed
        },
        RegistrationStage::AwaitingReply => RegistrationStage::Registered,
        RegistrationStage::Registered => RegistrationStage::Registered,
        RegistrationStage::Failed => RegistrationStage::Failed,
    }
}

/// Goes on with a registration once a step has succeeded or failed.
pub fn connect_to_server(stage: RegistrationStage, succeeded: bool) -> (next: RegistrationStage)
    ensures
        next == registration_next(stage, succeeded),
{
    match stage {
        RegistrationStage::Connecting if succeeded => RegistrationStage::Encoding,
        RegistrationStage::Encoding if succeeded => RegistrationStage::Sending,
        RegistrationStage::Sending if succeeded => RegistrationStage::AwaitingReply,
        RegistrationStage::AwaitingReply => RegistrationStage::Registered,
        RegistrationStage::Registered => RegistrationStage::Registered,
        _ => RegistrationStage::Failed,
    }
}

/// How far the sending of a bundle has come.
#[derive(Clone, Copy, Debug, PartialEq, Eq, Structural)]
pub enum SendStage {
    Encoding,
    Connecting,
    Writing,
    AwaitingAck,
    Acknowledged,
    Unacknowledged,
    Aborted,
}

/// The stage after a step that succeeded or failed. No connection is made for a
/// bundle that cannot be encoded; a bundle that was written counts as sent even
/// if the peer does not acknowledge it.
pub open spec fn send_next(stage: SendStage, succeeded: bool) -> SendStage {
    match stage {
        SendStage::Encoding => if succeeded {
            SendStage::Connecting
        } else {
            SendStage::Aborted
        },
        SendStage::Connecting => if succeeded {
            SendStage::Writing
        } else {
            SendStage::Aborted
        },
        SendStage::Writing => if succeeded {
            SendStage::AwaitingAck
        } else {
            SendStage::Aborted
        },
        SendStage::AwaitingAck => if succeeded {
            SendStage::Acknowledged
        } else {
            SendStage::Unacknowledged
        },
        _ => stage,
    }
}

/// Goes on with the sending of a bundle once a step has succeeded or failed.
pub fn send_bundle(stage: SendStage, succeeded: bool) -> (next: SendStage)
    ensures
        next == send_next(stage, succeeded),
{
    match stage {
        SendStage::Encoding if succeeded => SendStage::Connecting,
        SendStage::Connecting if succeeded => SendStage::Writing,
        SendStage::Writing if succeeded => SendStage::AwaitingAck,
        SendStage::AwaitingAck if succeeded => SendStage::Acknowledged,
        SendStage::AwaitingAck => SendStage::Unacknowledged,
        SendStage::Encoding => SendStage::Aborted,
        SendStage::Connecting => SendStage::Aborted,
        SendStage::Writing => SendStage::Aborted,
        _ => stage,
    }
}

/// Whether the bundle was written to the peer by a stage, acknowledged or not.
pub open spec fn counts_as_written(stage: SendStage) -> bool {
    stage == SendStage::AwaitingAck || stage == SendStage::Acknowledged || stage
        == SendStage::Unacknowledged
}

/// Says whether the bundle was written to the peer by a stage.
pub fn was_written(stage: SendStage) -> (written: bool)
    ensures
        written == counts_as_written(stage),
{
    match stage {
        SendStage::AwaitingAck => true,
        SendStage::Acknowledged => true,
        SendStage::Unacknowledged => true,
        _ => false,
    }
}

/// The number that four bytes stand for, the most significant first.
pub open spec fn be_value(bytes: Seq<u8>) -> int {
    bytes[0] * 0x100_0000 + bytes[1] * 0x1_0000 + bytes[2] * 0x100 + bytes[3]
}

/// The four bytes that stand for a number modulo two to the 32nd, the most
/// significant first.
pub open spec fn be_bytes(number: int) -> Seq<u8> {
    seq![
        (number / 0x100_0000 % 0x100) as u8,
        (number / 0x1_0000 % 0x100) as u8,
        (number / 0x100 % 0x100) as u8,
        (number % 0x100) as u8,
    ]
}

/// A payload with its length in front, as it goes over a connection.
pub open spec fn framed(payload: Seq<u8>) -> Seq<u8> {
    be_bytes(payload.len() as int) + payload
}

/// The four bytes that the acknowledgement of a bundle consists of.
pub fn ack_bytes() -> (bytes: [u8; 4])
    ensures
        bytes@ == seq![0x41u8, 0x43u8, 0x4bu8, 0x21u8],
{
    [0x41, 0x43, 0x4b, 0x21]
}

/// The header of a frame with a payload of the given length. A length that does
/// not fit in four bytes is cut to its low ones.
pub fn frame_header(len: usize) -> (header: [u8; 4])
    ensures
        header@ == be_bytes(len as int),
{
    let n: u64 = len as u64;
    let b0: u64 = n / 0x100_0000 % 0x100;
    let b1: u64 = n / 0x1_0000 % 0x100;
    let b2: u64 = n / 0x100 % 0x100;
    let b3: u64 = n % 0x100;
    let header: [u8; 4] = [b0 as u8, b1 as u8, b2 as u8, b3 as u8];
    assert(header@ =~= be_bytes(len as int));
    header
}

/// The length of the payload that a header announces.
pub fn payload_len(header: [u8; 4]) -> (len: usize)
    ensures
        len == be_value(header@),
{
    let high: u32 = header[0] as u32 * 0x100_0000 + header[1] as u32 * 0x1_0000;
    let low: u32 = header[2] as u32 * 0x100 + header[3] as u32;
    (high + low) as usize
}

/// A payload with its length in front.
pub fn frame(payload: &[u8]) -> (bytes: Vec<u8>)
    ensures
        bytes@ == framed(payload@),
{
    let header: [u8; 4] = frame_header(payload.len());
    let mut bytes: Vec<u8> = Vec::new();
    bytes.push(header[0]);
    bytes.push(header[1]);
    bytes.push(header[2]);
    bytes.push(header[3]);
    assert(bytes@ =~= header@);
    bytes.extend_from_slice(payload);
    assert(bytes@ =~= framed(payload@));
    bytes
}

/// How far the receipt of a bundle has come.
#[derive(Debug)]
pub enum ReceiveState {
    /// The header of the frame is to be read.
    Header,
    /// A payload of this length is to be read and decoded.
    Payload { len: usize },
    /// The receipt of this bundle is to be acknowledged.
    Acknowledge { bundle: Bundle },
    /// This bundle was received.
    Received { bundle: Bundle },
    /// No bundle was received.
    Failed,
}

/// What happens while a bundle is received.
#[derive(Debug)]
pub enum ReceiveEvent {
    ReadFailed,
    Header { bytes: [u8; 4] },
    /// The payload was read; it holds a bundle or cannot be decoded.
    Payload { bundle: Option<Bundle> },
    /// The acknowledgement was written or could not be.
    AckWritten { succeeded: bool },
}

/// The state after an event. Whether the acknowledgement could be written does
/// not matter; an event that is not due changes nothing.
pub open spec fn receive_next(state: ReceiveState, event: ReceiveEvent) -> ReceiveState {
    match (state, event) {
        (ReceiveState::Header, ReceiveEvent::ReadFailed) => ReceiveState::Failed,
        (ReceiveState::Header, ReceiveEvent::Header { bytes }) => ReceiveState::Payload {
            len: be_value(bytes@) as usize,
        },
        (ReceiveState::Payload { .. }, ReceiveEvent::ReadFailed) => ReceiveState::Failed,
        (
            ReceiveState::Payload { .. },
            ReceiveEvent::Payload { bundle: Some(bundle) },
        ) => ReceiveState::Acknowledge { bundle },
        (
            ReceiveState::Payload { .. },
            ReceiveEvent::Payload { bundle: None },
        ) => ReceiveState::Failed,
        (
            ReceiveState::Acknowledge { bundle },
            ReceiveEvent::AckWritten { .. },
        ) => ReceiveState::Received { bundle },
        _ => state,
    }
}

/// Goes on with the receipt of a bundle when something happens.
pub fn receive_bundle(state: ReceiveState, event: ReceiveEvent) -> (next: ReceiveState)
    ensures
        next == receive_next(state, event),
{
    match (state, event) {
        (ReceiveState::Header, ReceiveEvent::ReadFailed) => ReceiveState::Failed,
        (ReceiveState::Header, ReceiveEvent::Header { bytes }) => ReceiveState::Payload {
            len: payload_len(bytes),
        },
        (ReceiveState::Payload { .. }, ReceiveEvent::ReadFailed) => ReceiveState::Failed,
        (ReceiveState::Payload { .. }, ReceiveEvent::Payload { bundle }) => match bundle {
            Some(bundle) => ReceiveState::Acknowledge { bundle },
            None => ReceiveState::Failed,
        },
        (ReceiveState::Acknowledge { bundle }, ReceiveEvent::AckWritten { .. }) =>
            ReceiveState::Received { bundle },
        (state, _) => state,
    }
}

/// Why a peer's summary vector could not be had.
#[derive(Debug)]
pub enum SummaryError {
    /// No connection to the peer could be made.
    Unreachable { destination: String },
    /// The connection broke, or what came over it could not be read.
    Transport { reason: String },
    /// The peer answered with something else.
    UnexpectedReply,
}

/// What an error says.
pub open spec fn summary_error_text(error: SummaryError) -> Seq<char> {
    match error {
        SummaryError::Unreachable { destination } => "could not reach peer "@ + destination@,
        SummaryError::Transport { reason } => reason@,
        SummaryError::UnexpectedReply => "unexpected response from peer"@,
    }
}

impl SummaryError {
    /// What the error says.
    pub fn message(&self) -> (text: String)
        ensures
            text@ == summary_error_text(*self),
    {
        match self {
            SummaryError::Unreachable { destination } => {
                let mut text = "could not reach peer ".to_owned();
                text.append(destination.as_str());
                text
            },
            SummaryError::Transport { reason } => reason.clone(),
            SummaryError::UnexpectedReply => "unexpected response from peer".to_owned(),
        }
    }
}

/// What came of asking a peer for its summary vector.
#[derive(Debug)]
pub enum PeerExchange {
    /// No connection could be made.
    Unreachable,
    /// The connection broke, or what came over it could not be read.
    Broken { reason: String },
    /// The peer answered.
    Reply { message: BundleKind },
}

/// The message that asks a peer for its summary vector.
pub fn sv_request(self_id: Id) -> (request: BundleKind)
    ensures
        request@ == (BundleKindView::RequestSV { from: self_id }),
{
    BundleKind::RequestSV { from: self_id }
}

/// The summary vector of a peer, given what came of asking it.
pub fn request_peer_sv(destination: &str, exchange: PeerExchange) -> (result: Result<
    Vec<Id>,
    SummaryError,
>)
    ensures
        match exchange {
            PeerExchange::Unreachable => result matches Err(
                SummaryError::Unreachable { destination: named },
            ) && named@ == destination@,
            PeerExchange::Broken { reason } => result == Err::<Vec<Id>, SummaryError>(
                SummaryError::Transport { reason },
            ),
            PeerExchange::Reply { message: BundleKind::SummaryVector { ids } } => result == Ok::<
                Vec<Id>,
                SummaryError,
            >(ids),
            PeerExchange::Reply { .. } => result == Err::<Vec<Id>, SummaryError>(
                SummaryError::UnexpectedReply,
            ),
        },
{
    match exchange {
        PeerExchange::Unreachable => Err(
            SummaryError::Unreachable { destination: destination.to_owned() },
        ),
        PeerExchange::Broken { reason } => Err(SummaryError::Transport { reason }),
        PeerExchange::Reply { message: BundleKind::SummaryVector { ids } } => Ok(ids),
        PeerExchange::Reply { .. } => Err(SummaryError::UnexpectedReply),
    }
}

/// The identifiers of bundles.
pub open spec fn ids_of(bundles: Seq<BundleView>) -> Seq<Id> {
    bundles.map_values(|bundle: BundleView| bundle.id)
}

/// The answer that a message between peers gets: a request for the summary vector
/// is answered with the identifiers of the bundles held, nothing else is answered.
pub open spec fn peer_answer(held: Seq<BundleView>, request: BundleKindView) -> Option<
    BundleKindView,
> {
    match request {
        BundleKindView::RequestSV { .. } => Some(
            BundleKindView::SummaryVector { ids: ids_of(held) },
        ),
        _ => None,
    }
}

/// The contents of an answer.
pub open spec fn answer_view(answer: Option<BundleKind>) -> Option<BundleKindView> {
    match answer {
        Some(kind) => Some(kind@),
        None => None,
    }
}

/// The answer to a message from a peer, if it is one that is answered.
pub fn respond_peer_sv(routing_engine: &RoutingEngine, request: &BundleKind) -> (answer: Option<
    BundleKind,
>)
    requires
        routing_engine.wf(),
    ensures
        answer_view(answer) == peer_answer(routing_engine.bundle_manager@, request@),
{
    match request {
        BundleKind::RequestSV { .. } => {
            let bundles = routing_engine.get_summary_vector(&routing_engine.bundle_manager);
            let ghost held = routing_engine.bundle_manager@;
            let mut ids: Vec<Id> = Vec::new();
            let mut i: usize = 0;
            while i < bundles.len()
                invariant
                    i <= bundles@.len(),
                    bundles@.len() == held.len(),
                    forall|j: int| 0 <= j < held.len() ==> #[trigger] held[j] == bundles@[j]@,
                    ids@.len() == i,
                    forall|j: int| 0 <= j < i ==> #[trigger] ids@[j] == held[j].id,
                decreases bundles@.len() - i,
            {
                assert(held[i as int] == bundles@[i as int]@);
                ids.push(bundles[i].id);
                i += 1;
            }
            assert(ids@ =~= ids_of(held));
            Some(BundleKind::SummaryVector { ids })
        },
        _ => None,
    }
}

/// How far the conversation with a peer that connected has come.
#[derive(Debug)]
pub enum PeerState {
    /// The header of the next frame is to be read.
    Header,
    /// A payload of this length is to be read and decoded.
    Payload { len: usize },
    /// This message is to be sent.
    Reply { message: BundleKind },
    /// The receipt of this bundle is to be acknowledged.
    Acknowledge { bundle: Bundle },
    /// What it takes to route this bundle is to be set up.
    Prepare { bundle: Bundle },
    /// This bundle is to be routed.
    Route { bundle: Bundle },
    /// The connection is to be closed.
    Closed,
}

/// What happens in the conversation with a peer.
#[derive(Debug)]
pub enum PeerEvent {
    ReadFailed,
    Header { bytes: [u8; 4] },
    /// The payload was read. It holds a message between peers, or else a bundle,
    /// or else nothing that can be decoded.
    Payload { control: Option<BundleKind>, bundle: Option<Bundle> },
    /// The acknowledgement was written or could not be.
    AckWritten { succeeded: bool },
    /// What it takes to route was set up or could not be.
    Prepared { succeeded: bool },
    /// The reply was sent, whether it arrived or not, or the bundle was routed.
    Done,
}

/// The contents of a `PeerState`.
#[verifier::ext_equal]
pub enum PeerStateView {
    Header,
    Payload { len: int },
    Reply { message: BundleKindView },
    Acknowledge { bundle: BundleView },
    Prepare { bundle: BundleView },
    Route { bundle: BundleView },
    Closed,
}

impl View for PeerState {
    type V = PeerStateView;

    open spec fn view(&self) -> PeerStateView {
        match self {
            PeerState::Header => PeerStateView::Header,
            PeerState::Payload { len } => PeerStateView::Payload { len: *len as int },
            PeerState::Reply { message } => PeerStateView::Reply { message: message@ },
            PeerState::Acknowledge { bundle } => PeerStateView::Acknowledge { bundle: bundle@ },
            PeerState::Prepare { bundle } => PeerStateView::Prepare { bundle: bundle@ },
            PeerState::Route { bundle } => PeerStateView::Route { bundle: bundle@ },
            PeerState::Closed => PeerStateView::Closed,
        }
    }
}

impl PeerState {
    /// The bundle that the conversation is about, if it is about one.
    pub open spec fn carried(self) -> Option<Bundle> {
        match self {
            PeerState::Acknowledge { bundle } => Some(bundle),
            PeerState::Prepare { bundle } => Some(bundle),
            PeerState::Route { bundle } => Some(bundle),
            _ => None,
        }
    }
}

/// The bundle that the conversation is about after an event: the one that came in,
/// and from then on the same one, until it was routed or the connection is closed.
pub open spec fn carried_next(state: PeerState, event: PeerEvent) -> Option<Bundle> {
    match (state, event) {
        (
            PeerState::Payload { .. },
            PeerEvent::Payload { control: None, bundle: Some(bundle) },
        ) => Some(bundle),
        (PeerState::Acknowledge { .. }, PeerEvent::AckWritten { succeeded: false }) => None,
        (PeerState::Prepare { .. }, PeerEvent::Prepared { succeeded: false }) => None,
        (PeerState::Route { .. }, PeerEvent::Done) => None,
        _ => state.carried(),
    }
}

/// The state after an event, at a node that holds some bundles.
///
/// A frame that cannot be read ends the connection; one that cannot be decoded is
/// skipped. A message is answered where it calls for an answer. A bundle is
/// acknowledged, and routed only once that was done. An event that is not due
/// changes nothing.
pub open spec fn peer_next(
    held: Seq<BundleView>,
    state: PeerStateView,
    event: PeerEvent,
) -> PeerStateView {
    match (state, event) {
        (PeerStateView::Header, PeerEvent::ReadFailed) => PeerStateView::Closed,
        (PeerStateView::Header, PeerEvent::Header { bytes }) => PeerStateView::Payload {
            len: be_value(bytes@),
        },
        (PeerStateView::Payload { .. }, PeerEvent::ReadFailed) => PeerStateView::Closed,
        (
            PeerStateView::Payload { .. },
            PeerEvent::Payload { control: Some(message), .. },
        ) => match peer_answer(held, message@) {
            Some(message) => PeerStateView::Reply { message },
            None => PeerStateView::Header,
        },
        (
            PeerStateView::Payload { .. },
            PeerEvent::Payload { control: None, bundle: Some(bundle) },
        ) => PeerStateView::Acknowledge { bundle: bundle@ },
        (
            PeerStateView::Payload { .. },
            PeerEvent::Payload { control: None, bundle: None },
        ) => PeerStateView::Header,
        (PeerStateView::Reply { .. }, PeerEvent::Done) => PeerStateView::Header,
        (PeerStateView::Acknowledge { bundle }, PeerEvent::AckWritten { succeeded }) => {
            if succeeded {
                PeerStateView::Prepare { bundle }
            } else {
                PeerStateView::Closed
            }
        },
        (PeerStateView::Prepare { bundle }, PeerEvent::Prepared { succeeded }) => {
            if succeeded {
                PeerStateView::Route { bundle }
            } else {
                PeerStateView::Closed
            }
        },
        (PeerStateView::Route { .. }, PeerEvent::Done) => PeerStateView::Header,
        _ => state,
    }
}

/// Goes on with the conversation with a peer when something happens.
pub fn handle_peer_to_peer(
    routing_engine: &RoutingEngine,
    state: PeerState,
    event: PeerEvent,
) -> (next: PeerState)
    requires
        routing_engine.wf(),
    ensures
        next@ == peer_next(routing_engine.bundle_manager@, state@, event),
        next.carried() == carried_next(state, event),
{
    match (state, event) {
        (PeerState::Header, PeerEvent::ReadFailed) => PeerState::Closed,
        (PeerState::Header, PeerEvent::Header { bytes }) => PeerState::Payload {
            len: payload_len(bytes),
        },
        (PeerState::Payload { .. }, PeerEvent::ReadFailed) => PeerState::Closed,
        (PeerState::Payload { .. }, PeerEvent::Payload { control, bundle }) => match control {
            Some(message) => match respond_peer_sv(routing_engine, &message) {
                Some(message) => PeerState::Reply { message },
                None => PeerState::Header,
            },
            None => match bundle {
                Some(bundle) => PeerState::Acknowledge { bundle },
                None => PeerState::Header,
            },
        },
        (PeerState::Reply { .. }, PeerEvent::Done) => PeerState::Header,
        (PeerState::Acknowledge { bundle }, PeerEvent::AckWritten { succeeded }) => {
            if succeeded {
                PeerState::Prepare { bundle }
            } else {
                PeerState::Closed
            }
        },
        (PeerState::Prepare { bundle }, PeerEvent::Prepared { succeeded }) => {
            if succeeded {
                PeerState::Route { bundle }
            } else {
                PeerState::Closed
            }
        },
        (PeerState::Route { .. }, PeerEvent::Done) => PeerState::Header,
        (state, _) => state,
    }
}

} // verus!
