//! The events that the contract publishes.
//!
//! Each function here builds the one event that its emit helper publishes:
//! the topic list (the topic symbol, then the key that the symbol's
//! cardinality calls for) and the data payload. Publishing the value is left
//! to the host binding, which performs no other step.

use vstd::prelude::*;

use crate::topics::{Topic, TopicKey};

verus! {

/// An account or contract address, held by its strkey text.
#[derive(Clone, Debug, PartialEq, Eq)]
pub struct Address {
    /// The strkey, such as `G...` for an account or `C...` for a contract.
    pub strkey: String,
}

/// Payload published when a new stream is persisted.
#[derive(Clone, Debug, PartialEq, Eq)]
pub struct StreamCreated {
    pub stream_id: u64,
    pub sender: Address,
    pub recipient: Address,
    pub deposit_amount: i128,
    pub rate_per_second: i128,
    pub start_time: u64,
    pub cliff_time: u64,
    pub end_time: u64,
    pub withdraw_dust_threshold: i128,
    pub memo: Option<Vec<u8>>,
    pub metadata: Option<Vec<(Vec<u8>, Vec<u8>)>>,
}

/// Payload published when a recipient withdraws accrued tokens.
#[derive(Clone, Debug, PartialEq, Eq)]
pub struct Withdrawal {
    pub stream_id: u64,
    pub recipient: Address,
    pub amount: i128,
}

/// Payload published when a recipient withdraws to another destination.
#[derive(Clone, Debug, PartialEq, Eq)]
pub struct WithdrawalTo {
    pub stream_id: u64,
    pub recipient: Address,
    pub destination: Address,
    pub amount: i128,
}

/// Payload published when a stream is paused.
#[derive(Clone, Debug, PartialEq, Eq)]
pub struct StreamPaused {
    pub stream_id: u64,
    /// The reason code, as the bytes of the host string.
    pub reason: Vec<u8>,
}

/// Payload published when a stream's rate is updated.
#[derive(Clone, Debug, PartialEq, Eq)]
pub struct RateUpdated {
    pub stream_id: u64,
    pub old_rate_per_second: i128,
    pub new_rate_per_second: i128,
    pub effective_time: u64,
}

/// Payload published when a stream's rate is decreased with checkpointing.
#[derive(Clone, Debug, PartialEq, Eq)]
pub struct RateDecreased {
    pub stream_id: u64,
    pub old_rate_per_second: i128,
    pub new_rate_per_second: i128,
    pub effective_time: u64,
    pub checkpointed_amount: i128,
    pub refund_amount: i128,
}

/// Payload published when a rate update exceeds the rate cap.
#[derive(Clone, Debug, PartialEq, Eq)]
pub struct RateCapEnforced {
    pub stream_id: u64,
    pub attempted_rate: i128,
    pub max_rate_per_second: i128,
}

/// Payload published when a stream's end time is shortened.
#[derive(Clone, Debug, PartialEq, Eq)]
pub struct StreamEndShortened {
    pub stream_id: u64,
    pub old_end_time: u64,
    pub new_end_time: u64,
    pub refund_amount: i128,
}

/// Payload published when a stream's end time is extended.
#[derive(Clone, Debug, PartialEq, Eq)]
pub struct StreamEndExtended {
    pub stream_id: u64,
    pub old_end_time: u64,
    pub new_end_time: u64,
}

/// Payload published when a stream's deposit is increased.
#[derive(Clone, Debug, PartialEq, Eq)]
pub struct StreamToppedUp {
    pub stream_id: u64,
    pub top_up_amount: i128,
    pub new_deposit_amount: i128,
    pub new_end_time: u64,
}

/// Payload published when a stream moves between funded and underfunded.
#[derive(Clone, Debug, PartialEq, Eq)]
pub struct StreamHealthChanged {
    pub stream_id: u64,
    pub is_underfunded: bool,
    pub remaining_balance: i128,
    pub seconds_remaining: u64,
}

/// Payload published when a stream's recipient is rotated.
#[derive(Clone, Debug, PartialEq, Eq)]
pub struct RecipientUpdated {
    pub stream_id: u64,
    pub old_recipient: Address,
    pub new_recipient: Address,
}

/// Payload published when the global emergency pause flag changes.
#[derive(Clone, Debug, PartialEq, Eq)]
pub struct GlobalEmergencyPauseChanged {
    pub paused: bool,
}

/// Payload published when the global emergency pause is lifted.
#[derive(Clone, Debug, PartialEq, Eq)]
pub struct GlobalResumed {
    pub resumed_at: u64,
}

/// Payload published when the creation pause flag changes.
#[derive(Clone, Debug, PartialEq, Eq)]
pub struct ContractPauseChanged {
    pub paused: bool,
}

/// Payload published when the protocol is paused.
#[derive(Clone, Debug, PartialEq, Eq)]
pub struct ProtocolPaused {
    /// The reason code, as the bytes of the host string.
    pub reason: Vec<u8>,
    pub paused_at: u64,
}

/// Payload published when the protocol is resumed.
#[derive(Clone, Debug, PartialEq, Eq)]
pub struct ProtocolResumed {
    pub resumed_at: u64,
}

/// Payload published when an auto-claim destination is configured.
#[derive(Clone, Debug, PartialEq, Eq)]
pub struct AutoClaimSet {
    pub stream_id: u64,
    pub destination: Address,
}

/// Payload published when an auto-claim destination is revoked.
#[derive(Clone, Debug, PartialEq, Eq)]
pub struct AutoClaimRevoked {
    pub stream_id: u64,
}

/// Payload published when a configured final claim is executed.
#[derive(Clone, Debug, PartialEq, Eq)]
pub struct AutoClaimTriggered {
    pub stream_id: u64,
    pub destination: Address,
    pub amount: i128,
}

/// Payload published when the admin recovers tokens above total liabilities.
#[derive(Clone, Debug, PartialEq, Eq)]
pub struct ExcessSwept {
    pub to: Address,
    pub amount: i128,
}

/// Payload published when a stream is cloned from a source stream.
#[derive(Clone, Debug, PartialEq, Eq)]
pub struct StreamCloned {
    pub new_stream_id: u64,
    pub source_stream_id: u64,
    pub sender: Address,
    pub recipient: Address,
    pub deposit_amount: i128,
    pub rate_per_second: i128,
    pub start_time: u64,
    pub cliff_time: u64,
    pub end_time: u64,
    pub withdraw_dust_threshold: i128,
}

/// Payload published when a keeper cancels an expired stream.
#[derive(Clone, Debug, PartialEq, Eq)]
pub struct KeeperCancelled {
    pub stream_id: u64,
    pub keeper: Address,
    pub keeper_fee: i128,
    pub recipient_amount: i128,
    pub sender_refund: i128,
}

/// Payload published when a stream's decommissioned flag is set.
#[derive(Clone, Debug, PartialEq, Eq)]
pub struct StreamDecommissioned {
    pub stream_id: u64,
    pub decommissioned: bool,
}

/// The single-value stream events.
#[derive(Clone, Debug, PartialEq, Eq)]
pub enum StreamEvent {
    /// Kept for compatibility: pauses now publish [`StreamPaused`].
    Paused(u64),
    Resumed(u64),
    StreamCancelled(u64),
    StreamCompleted(u64),
    StreamClosed(u64),
}

/// The data payload of an event.
#[derive(Clone, Debug, PartialEq, Eq)]
pub enum EventData {
    StreamCreated(StreamCreated),
    Withdrawal(Withdrawal),
    WithdrawalTo(WithdrawalTo),
    StreamPaused(StreamPaused),
    RateUpdated(RateUpdated),
    RateDecreased(RateDecreased),
    RateCapEnforced(RateCapEnforced),
    StreamEndShortened(StreamEndShortened),
    StreamEndExtended(StreamEndExtended),
    StreamToppedUp(StreamToppedUp),
    StreamHealthChanged(StreamHealthChanged),
    RecipientUpdated(RecipientUpdated),
    GlobalEmergencyPauseChanged(GlobalEmergencyPauseChanged),
    GlobalResumed(GlobalResumed),
    ContractPauseChanged(ContractPauseChanged),
    ProtocolPaused(ProtocolPaused),
    ProtocolResumed(ProtocolResumed),
    AutoClaimSet(AutoClaimSet),
    AutoClaimRevoked(AutoClaimRevoked),
    AutoClaimTriggered(AutoClaimTriggered),
    ExcessSwept(ExcessSwept),
    StreamCloned(StreamCloned),
    KeeperCancelled(KeeperCancelled),
    StreamDecommissioned(StreamDecommissioned),
    StreamEvent(StreamEvent),
}

/// One element of an event's topic list.
#[derive(Clone, Debug, PartialEq, Eq)]
pub enum TopicValue {
    /// The topic symbol.
    Symbol(Topic),
    /// A stream or offer id.
    U64(u64),
    /// An address.
    Address(Address),
}

/// An event as published: its topic list and its data payload.
#[derive(Clone, Debug, PartialEq, Eq)]
pub struct ContractEvent {
    pub topics: Vec<TopicValue>,
    pub data: EventData,
}

/// The topic under which a payload is published: each payload belongs to one topic.
pub open spec fn data_topic(d: EventData) -> Topic {
    match d {
        EventData::StreamCreated(_) => Topic::Created,
        EventData::Withdrawal(_) => Topic::Withdrew,
        EventData::WithdrawalTo(_) => Topic::WithdrewTo,
        EventData::StreamPaused(_) => Topic::Paused,
        EventData::RateUpdated(_) => Topic::RateUpdated,
        EventData::RateDecreased(_) => Topic::RateDecreased,
        EventData::RateCapEnforced(_) => Topic::RateCapEnforced,
        EventData::StreamEndShortened(_) => Topic::EndShortened,
        EventData::StreamEndExtended(_) => Topic::EndExtended,
        EventData::StreamToppedUp(_) => Topic::ToppedUp,
        EventData::StreamHealthChanged(_) => Topic::HealthChanged,
        EventData::RecipientUpdated(_) => Topic::RecipientUpdated,
        EventData::GlobalEmergencyPauseChanged(_) => Topic::GlobalPause,
        EventData::GlobalResumed(_) => Topic::GlobalResume,
        EventData::ContractPauseChanged(_) => Topic::ContractPause,
        EventData::ProtocolPaused(_) => Topic::ProtocolPause,
        EventData::ProtocolResumed(_) => Topic::ProtocolResume,
        EventData::AutoClaimSet(_) => Topic::AutoClaimSet,
        EventData::AutoClaimRevoked(_) => Topic::AutoClaimRevoked,
        EventData::AutoClaimTriggered(_) => Topic::AutoClaimTriggered,
        EventData::ExcessSwept(_) => Topic::ExcessSwept,
        EventData::StreamCloned(_) => Topic::Cloned,
        EventData::KeeperCancelled(_) => Topic::KeeperCancelled,
        EventData::StreamDecommissioned(_) => Topic::Decommissioned,
        EventData::StreamEvent(e) => match e {
            StreamEvent::Paused(_) => Topic::Paused,
            StreamEvent::Resumed(_) => Topic::Resumed,
            StreamEvent::StreamCancelled(_) => Topic::Cancelled,
            StreamEvent::StreamCompleted(_) => Topic::Completed,
            StreamEvent::StreamClosed(_) => Topic::Closed,
        },
    }
}

/// The topic elements after the symbol have the shape that `key` calls for.
pub open spec fn key_matches(key: TopicKey, rest: Seq<TopicValue>) -> bool {
    match key {
        TopicKey::Bare => rest.len() == 0,
        TopicKey::StreamId => rest.len() == 1 && rest[0] is U64,
        TopicKey::OfferId => rest.len() == 1 && rest[0] is U64,
        TopicKey::Account => rest.len() == 1 && rest[0] is Address,
        TopicKey::StreamPair => rest.len() == 2 && rest[0] is U64 && rest[1] is U64,
        TopicKey::Unassigned => false,
    }
}

impl ContractEvent {
    /// The event's topic symbol.
    pub open spec fn topic(self) -> Topic
        recommends
            self.topics@.len() > 0 && self.topics@[0] is Symbol,
    {
        self.topics@[0]->Symbol_0
    }

    /// The event is well formed: its topic list is the symbol followed by the
    /// key that the symbol calls for, and its payload belongs to that symbol.
    pub open spec fn well_formed(self) -> bool {
        &&& self.topics@.len() > 0
        &&& self.topics@[0] is Symbol
        &&& key_matches(self.topic().key_spec(), self.topics@.skip(1))
        &&& data_topic(self.data) == self.topic()
    }
}

/// A well-formed event has exactly as many topic elements as its symbol's cardinality.
pub proof fn lemma_topic_cardinality_fixed(e: ContractEvent)
    requires
        e.well_formed(),
    ensures
        e.topics@.len() == e.topic().cardinality_spec(),
{
}

/// The event published under a stream-level topic.
fn stream_level(topic: Topic, stream_id: u64, data: EventData) -> (e: ContractEvent)
    requires
        topic.key_spec() == TopicKey::StreamId,
        data_topic(data) == topic,
    ensures
        e.topics@ == seq![TopicValue::Symbol(topic), TopicValue::U64(stream_id)],
        e.data == data,
        e.well_formed(),
{
    let e = ContractEvent { topics: vec![TopicValue::Symbol(topic), TopicValue::U64(stream_id)], data };
    assert(e.topics@.skip(1) =~= seq![TopicValue::U64(stream_id)]);
    e
}

/// The event published under a contract-level topic.
fn contract_level(topic: Topic, data: EventData) -> (e: ContractEvent)
    requires
        topic.key_spec() == TopicKey::Bare,
        data_topic(data) == topic,
    ensures
        e.topics@ == seq![TopicValue::Symbol(topic)],
        e.data == data,
        e.well_formed(),
{
    let e = ContractEvent { topics: vec![TopicValue::Symbol(topic)], data };
    assert(e.topics@.skip(1) =~= Seq::<TopicValue>::empty());
    e
}

/// The event published under an address-keyed topic.
fn account_level(topic: Topic, account: Address, data: EventData) -> (e: ContractEvent)
    requires
        topic.key_spec() == TopicKey::Account,
        data_topic(data) == topic,
    ensures
        e.topics@ == seq![TopicValue::Symbol(topic), TopicValue::Address(account)],
        e.data == data,
        e.well_formed(),
{
    let e = ContractEvent { topics: vec![TopicValue::Symbol(topic), TopicValue::Address(account)], data };
    assert(e.topics@.skip(1) =~= seq![TopicValue::Address(account)]);
    e
}

/// The `created` event: topics `["created", stream_id]`, data the payload unchanged.
pub fn stream_created_event(stream_id: u64, payload: StreamCreated) -> (e: ContractEvent)
    ensures
        e.topics@ == seq![TopicValue::Symbol(Topic::Created), TopicValue::U64(stream_id)],
        e.data == EventData::StreamCreated(payload),
        e.well_formed(),
        e.topic() == Topic::Created,
{
    stream_level(Topic::Created, stream_id, EventData::StreamCreated(payload))
}

/// The `withdrew` event: topics `["withdrew", stream_id]`, data the payload unchanged.
pub fn withdrawal_event(stream_id: u64, payload: Withdrawal) -> (e: ContractEvent)
    ensures
        e.topics@ == seq![TopicValue::Symbol(Topic::Withdrew), TopicValue::U64(stream_id)],
        e.data == EventData::Withdrawal(payload),
        e.well_formed(),
        e.topic() == Topic::Withdrew,
{
    stream_level(Topic::Withdrew, stream_id, EventData::Withdrawal(payload))
}

/// The `wdraw_to` event: topics `["wdraw_to", stream_id]`, data the payload unchanged.
pub fn withdrawal_to_event(stream_id: u64, payload: WithdrawalTo) -> (e: ContractEvent)
    ensures
        e.topics@ == seq![TopicValue::Symbol(Topic::WithdrewTo), TopicValue::U64(stream_id)],
        e.data == EventData::WithdrawalTo(payload),
        e.well_formed(),
        e.topic() == Topic::WithdrewTo,
{
    stream_level(Topic::WithdrewTo, stream_id, EventData::WithdrawalTo(payload))
}

/// The `cancelled` event: topics `["cancelled", stream_id]`, data `StreamEvent::StreamCancelled(stream_id)`.
pub fn stream_cancelled_event(stream_id: u64) -> (e: ContractEvent)
    ensures
        e.topics@ == seq![TopicValue::Symbol(Topic::Cancelled), TopicValue::U64(stream_id)],
        e.data == EventData::StreamEvent(StreamEvent::StreamCancelled(stream_id)),
        e.well_formed(),
        e.topic() == Topic::Cancelled,
{
    stream_level(Topic::Cancelled, stream_id, EventData::StreamEvent(StreamEvent::StreamCancelled(stream_id)))
}

/// The `completed` event: topics `["completed", stream_id]`, data `StreamEvent::StreamCompleted(stream_id)`.
pub fn stream_completed_event(stream_id: u64) -> (e: ContractEvent)
    ensures
        e.topics@ == seq![TopicValue::Symbol(Topic::Completed), TopicValue::U64(stream_id)],
        e.data == EventData::StreamEvent(StreamEvent::StreamCompleted(stream_id)),
        e.well_formed(),
        e.topic() == Topic::Completed,
{
    stream_level(Topic::Completed, stream_id, EventData::StreamEvent(StreamEvent::StreamCompleted(stream_id)))
}

/// The `closed` event: topics `["closed", stream_id]`, data `StreamEvent::StreamClosed(stream_id)`.
pub fn stream_closed_event(stream_id: u64) -> (e: ContractEvent)
    ensures
        e.topics@ == seq![TopicValue::Symbol(Topic::Closed), TopicValue::U64(stream_id)],
        e.data == EventData::StreamEvent(StreamEvent::StreamClosed(stream_id)),
        e.well_formed(),
        e.topic() == Topic::Closed,
{
    stream_level(Topic::Closed, stream_id, EventData::StreamEvent(StreamEvent::StreamClosed(stream_id)))
}

/// The `paused` event: topics `["paused", stream_id]`, data the payload unchanged.
pub fn stream_paused_event(stream_id: u64, payload: StreamPaused) -> (e: ContractEvent)
    ensures
        e.topics@ == seq![TopicValue::Symbol(Topic::Paused), TopicValue::U64(stream_id)],
        e.data == EventData::StreamPaused(payload),
        e.well_formed(),
        e.topic() == Topic::Paused,
{
    stream_level(Topic::Paused, stream_id, EventData::StreamPaused(payload))
}

/// The `resumed` event: topics `["resumed", stream_id]`, data `StreamEvent::Resumed(stream_id)`.
pub fn stream_resumed_event(stream_id: u64) -> (e: ContractEvent)
    ensures
        e.topics@ == seq![TopicValue::Symbol(Topic::Resumed), TopicValue::U64(stream_id)],
        e.data == EventData::StreamEvent(StreamEvent::Resumed(stream_id)),
        e.well_formed(),
        e.topic() == Topic::Resumed,
{
    stream_level(Topic::Resumed, stream_id, EventData::StreamEvent(StreamEvent::Resumed(stream_id)))
}

/// The `rate_upd` event: topics `["rate_upd", stream_id]`, data the payload unchanged.
pub fn rate_updated_event(stream_id: u64, payload: RateUpdated) -> (e: ContractEvent)
    ensures
        e.topics@ == seq![TopicValue::Symbol(Topic::RateUpdated), TopicValue::U64(stream_id)],
        e.data == EventData::RateUpdated(payload),
        e.well_formed(),
        e.topic() == Topic::RateUpdated,
{
    stream_level(Topic::RateUpdated, stream_id, EventData::RateUpdated(payload))
}

/// The `rate_dec` event: topics `["rate_dec", stream_id]`, data the payload unchanged.
pub fn rate_decreased_event(stream_id: u64, payload: RateDecreased) -> (e: ContractEvent)
    ensures
        e.topics@ == seq![TopicValue::Symbol(Topic::RateDecreased), TopicValue::U64(stream_id)],
        e.data == EventData::RateDecreased(payload),
        e.well_formed(),
        e.topic() == Topic::RateDecreased,
{
    stream_level(Topic::RateDecreased, stream_id, EventData::RateDecreased(payload))
}

/// The `rate_cap` event: topics `["rate_cap", stream_id]`, data the payload unchanged.
pub fn rate_cap_enforced_event(stream_id: u64, payload: RateCapEnforced) -> (e: ContractEvent)
    ensures
        e.topics@ == seq![TopicValue::Symbol(Topic::RateCapEnforced), TopicValue::U64(stream_id)],
        e.data == EventData::RateCapEnforced(payload),
        e.well_formed(),
        e.topic() == Topic::RateCapEnforced,
{
    stream_level(Topic::RateCapEnforced, stream_id, EventData::RateCapEnforced(payload))
}

/// The `end_shrt` event: topics `["end_shrt", stream_id]`, data the payload unchanged.
pub fn stream_end_shortened_event(stream_id: u64, payload: StreamEndShortened) -> (e: ContractEvent)
    ensures
        e.topics@ == seq![TopicValue::Symbol(Topic::EndShortened), TopicValue::U64(stream_id)],
        e.data == EventData::StreamEndShortened(payload),
        e.well_formed(),
        e.topic() == Topic::EndShortened,
{
    stream_level(Topic::EndShortened, stream_id, EventData::StreamEndShortened(payload))
}

/// The `end_ext` event: topics `["end_ext", stream_id]`, data the payload unchanged.
pub fn stream_end_extended_event(stream_id: u64, payload: StreamEndExtended) -> (e: ContractEvent)
    ensures
        e.topics@ == seq![TopicValue::Symbol(Topic::EndExtended), TopicValue::U64(stream_id)],
        e.data == EventData::StreamEndExtended(payload),
        e.well_formed(),
        e.topic() == Topic::EndExtended,
{
    stream_level(Topic::EndExtended, stream_id, EventData::StreamEndExtended(payload))
}

/// The `top_up` event: topics `["top_up", stream_id]`, data the payload unchanged.
pub fn stream_topped_up_event(stream_id: u64, payload: StreamToppedUp) -> (e: ContractEvent)
    ensures
        e.topics@ == seq![TopicValue::Symbol(Topic::ToppedUp), TopicValue::U64(stream_id)],
        e.data == EventData::StreamToppedUp(payload),
        e.well_formed(),
        e.topic() == Topic::ToppedUp,
{
    stream_level(Topic::ToppedUp, stream_id, EventData::StreamToppedUp(payload))
}

/// The `health` event: topics `["health", stream_id]`, data the payload unchanged.
pub fn stream_health_changed_event(stream_id: u64, payload: StreamHealthChanged) -> (e: ContractEvent)
    ensures
        e.topics@ == seq![TopicValue::Symbol(Topic::HealthChanged), TopicValue::U64(stream_id)],
        e.data == EventData::StreamHealthChanged(payload),
        e.well_formed(),
        e.topic() == Topic::HealthChanged,
{
    stream_level(Topic::HealthChanged, stream_id, EventData::StreamHealthChanged(payload))
}

/// The `recp_upd` event: topics `["recp_upd", stream_id]`, data the payload unchanged.
pub fn recipient_updated_event(stream_id: u64, payload: RecipientUpdated) -> (e: ContractEvent)
    ensures
        e.topics@ == seq![TopicValue::Symbol(Topic::RecipientUpdated), TopicValue::U64(stream_id)],
        e.data == EventData::RecipientUpdated(payload),
        e.well_formed(),
        e.topic() == Topic::RecipientUpdated,
{
    stream_level(Topic::RecipientUpdated, stream_id, EventData::RecipientUpdated(payload))
}

/// The `gl_pause` event: topics `["gl_pause"]`, data the payload unchanged.
pub fn global_emergency_pause_changed_event(payload: GlobalEmergencyPauseChanged) -> (e: ContractEvent)
    ensures
        e.topics@ == seq![TopicValue::Symbol(Topic::GlobalPause)],
        e.data == EventData::GlobalEmergencyPauseChanged(payload),
        e.well_formed(),
        e.topic() == Topic::GlobalPause,
{
    contract_level(Topic::GlobalPause, EventData::GlobalEmergencyPauseChanged(payload))
}

/// The `gl_resume` event: topics `["gl_resume"]`, data the payload unchanged.
pub fn global_resumed_event(payload: GlobalResumed) -> (e: ContractEvent)
    ensures
        e.topics@ == seq![TopicValue::Symbol(Topic::GlobalResume)],
        e.data == EventData::GlobalResumed(payload),
        e.well_formed(),
        e.topic() == Topic::GlobalResume,
{
    contract_level(Topic::GlobalResume, EventData::GlobalResumed(payload))
}

/// The `ct_pause` event: topics `["ct_pause"]`, data the payload unchanged.
pub fn contract_pause_changed_event(payload: ContractPauseChanged) -> (e: ContractEvent)
    ensures
        e.topics@ == seq![TopicValue::Symbol(Topic::ContractPause)],
        e.data == EventData::ContractPauseChanged(payload),
        e.well_formed(),
        e.topic() == Topic::ContractPause,
{
    contract_level(Topic::ContractPause, EventData::ContractPauseChanged(payload))
}

/// The `pr_pause` event: topics `["pr_pause", admin]`, data the payload unchanged.
pub fn protocol_paused_event(admin: Address, payload: ProtocolPaused) -> (e: ContractEvent)
    ensures
        e.topics@ == seq![TopicValue::Symbol(Topic::ProtocolPause), TopicValue::Address(admin)],
        e.data == EventData::ProtocolPaused(payload),
        e.well_formed(),
        e.topic() == Topic::ProtocolPause,
{
    account_level(Topic::ProtocolPause, admin, EventData::ProtocolPaused(payload))
}

/// The `pr_resume` event: topics `["pr_resume", admin]`, data the payload unchanged.
pub fn protocol_resumed_event(admin: Address, payload: ProtocolResumed) -> (e: ContractEvent)
    ensures
        e.topics@ == seq![TopicValue::Symbol(Topic::ProtocolResume), TopicValue::Address(admin)],
        e.data == EventData::ProtocolResumed(payload),
        e.well_formed(),
        e.topic() == Topic::ProtocolResume,
{
    account_level(Topic::ProtocolResume, admin, EventData::ProtocolResumed(payload))
}

/// The `ac_set` event: topics `["ac_set", stream_id]`, data the payload unchanged.
pub fn auto_claim_set_event(stream_id: u64, payload: AutoClaimSet) -> (e: ContractEvent)
    ensures
        e.topics@ == seq![TopicValue::Symbol(Topic::AutoClaimSet), TopicValue::U64(stream_id)],
        e.data == EventData::AutoClaimSet(payload),
        e.well_formed(),
        e.topic() == Topic::AutoClaimSet,
{
    stream_level(Topic::AutoClaimSet, stream_id, EventData::AutoClaimSet(payload))
}

/// The `ac_revoke` event: topics `["ac_revoke", stream_id]`, data the payload unchanged.
pub fn auto_claim_revoked_event(stream_id: u64, payload: AutoClaimRevoked) -> (e: ContractEvent)
    ensures
        e.topics@ == seq![TopicValue::Symbol(Topic::AutoClaimRevoked), TopicValue::U64(stream_id)],
        e.data == EventData::AutoClaimRevoked(payload),
        e.well_formed(),
        e.topic() == Topic::AutoClaimRevoked,
{
    stream_level(Topic::AutoClaimRevoked, stream_id, EventData::AutoClaimRevoked(payload))
}

/// The `ac_trig` event: topics `["ac_trig", stream_id]`, data the payload unchanged.
pub fn auto_claim_triggered_event(stream_id: u64, payload: AutoClaimTriggered) -> (e: ContractEvent)
    ensures
        e.topics@ == seq![TopicValue::Symbol(Topic::AutoClaimTriggered), TopicValue::U64(stream_id)],
        e.data == EventData::AutoClaimTriggered(payload),
        e.well_formed(),
        e.topic() == Topic::AutoClaimTriggered,
{
    stream_level(Topic::AutoClaimTriggered, stream_id, EventData::AutoClaimTriggered(payload))
}

/// The `ex_swept` event: topics `["ex_swept", recipient]`, data the payload unchanged.
pub fn excess_swept_event(recipient: Address, payload: ExcessSwept) -> (e: ContractEvent)
    ensures
        e.topics@ == seq![TopicValue::Symbol(Topic::ExcessSwept), TopicValue::Address(recipient)],
        e.data == EventData::ExcessSwept(payload),
        e.well_formed(),
        e.topic() == Topic::ExcessSwept,
{
    account_level(Topic::ExcessSwept, recipient, EventData::ExcessSwept(payload))
}

/// The `cloned` event: topics `["cloned", stream_id]`, data the payload unchanged.
pub fn stream_cloned_event(stream_id: u64, payload: StreamCloned) -> (e: ContractEvent)
    ensures
        e.topics@ == seq![TopicValue::Symbol(Topic::Cloned), TopicValue::U64(stream_id)],
        e.data == EventData::StreamCloned(payload),
        e.well_formed(),
        e.topic() == Topic::Cloned,
{
    stream_level(Topic::Cloned, stream_id, EventData::StreamCloned(payload))
}

/// The `kp_cncl` event: topics `["kp_cncl", stream_id]`, data the payload unchanged.
pub fn keeper_cancelled_event(stream_id: u64, payload: KeeperCancelled) -> (e: ContractEvent)
    ensures
        e.topics@ == seq![TopicValue::Symbol(Topic::KeeperCancelled), TopicValue::U64(stream_id)],
        e.data == EventData::KeeperCancelled(payload),
        e.well_formed(),
        e.topic() == Topic::KeeperCancelled,
{
    stream_level(Topic::KeeperCancelled, stream_id, EventData::KeeperCancelled(payload))
}

/// The `decomm` event: topics `["decomm", stream_id]`, data a
/// [`StreamDecommissioned`] built from the same id and the flag.
pub fn stream_decommissioned_event(stream_id: u64, decommissioned: bool) -> (e: ContractEvent)
    ensures
        e.topics@ == seq![TopicValue::Symbol(Topic::Decommissioned), TopicValue::U64(stream_id)],
        e.data == EventData::StreamDecommissioned(StreamDecommissioned { stream_id, decommissioned }),
        e.well_formed(),
        e.topic() == Topic::Decommissioned,
{
    stream_level(
        Topic::Decommissioned,
        stream_id,
        EventData::StreamDecommissioned(StreamDecommissioned { stream_id, decommissioned }),
    )
}

} // verus!
