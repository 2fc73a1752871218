//! The event that each emit helper publishes, on concrete values.

use fluxora_stream::events::{
    auto_claim_revoked_event, auto_claim_set_event, auto_claim_triggered_event,
    contract_pause_changed_event, excess_swept_event, global_emergency_pause_changed_event,
    global_resumed_event, keeper_cancelled_event, protocol_paused_event, protocol_resumed_event,
    rate_cap_enforced_event, rate_decreased_event, rate_updated_event, recipient_updated_event,
    stream_cancelled_event, stream_cloned_event, stream_closed_event, stream_completed_event,
    stream_created_event, stream_decommissioned_event, stream_end_extended_event,
    stream_end_shortened_event, stream_health_changed_event, stream_paused_event,
    stream_resumed_event, stream_topped_up_event, withdrawal_event, withdrawal_to_event, Address,
    AutoClaimRevoked, AutoClaimSet, AutoClaimTriggered, ContractPauseChanged, EventData,
    ExcessSwept, GlobalEmergencyPauseChanged, GlobalResumed, KeeperCancelled, ProtocolPaused,
    ProtocolResumed, RateCapEnforced, RateDecreased, RateUpdated, RecipientUpdated, StreamCloned,
    StreamCreated, StreamDecommissioned, StreamEndExtended, StreamEndShortened, StreamEvent,
    StreamHealthChanged, StreamPaused, StreamToppedUp, TopicValue, Withdrawal, WithdrawalTo,
};
use fluxora_stream::topics::Topic;

fn addr(s: &str) -> Address {
    Address { strkey: s.to_string() }
}

fn stream_topics(topic: Topic, id: u64) -> Vec<TopicValue> {
    vec![TopicValue::Symbol(topic), TopicValue::U64(id)]
}

#[test]
fn created_event_carries_stream_id_and_payload() {
    let payload = StreamCreated {
        stream_id: 0,
        sender: addr("GSENDER"),
        recipient: addr("GRECIPIENT"),
        deposit_amount: 1000,
        rate_per_second: 1,
        start_time: 0,
        cliff_time: 0,
        end_time: 1000,
        withdraw_dust_threshold: 0,
        memo: Some(vec![1, 2, 3]),
        metadata: Some(vec![(vec![1], vec![2])]),
    };
    let e = stream_created_event(0, payload.clone());
    assert_eq!(e.topics, stream_topics(Topic::Created, 0));
    assert_eq!(e.data, EventData::StreamCreated(payload));
}

#[test]
fn topic_stream_id_is_passed_through_unchanged() {
    let payload = Withdrawal { stream_id: 3, recipient: addr("GR"), amount: 300 };
    let e = withdrawal_event(9, payload.clone());
    assert_eq!(e.topics, stream_topics(Topic::Withdrew, 9));
    assert_eq!(e.data, EventData::Withdrawal(payload));

    let payload = WithdrawalTo { stream_id: 9, recipient: addr("GR"), destination: addr("GD"), amount: -1 };
    let e = withdrawal_to_event(9, payload.clone());
    assert_eq!(e.topics, stream_topics(Topic::WithdrewTo, 9));
    assert_eq!(e.data, EventData::WithdrawalTo(payload));
}

#[test]
fn stream_event_variants_repeat_the_stream_id() {
    let id = u64::MAX;
    let e = stream_cancelled_event(id);
    assert_eq!(e.topics, stream_topics(Topic::Cancelled, id));
    assert_eq!(e.data, EventData::StreamEvent(StreamEvent::StreamCancelled(id)));
    let e = stream_completed_event(id);
    assert_eq!(e.topics, stream_topics(Topic::Completed, id));
    assert_eq!(e.data, EventData::StreamEvent(StreamEvent::StreamCompleted(id)));
    let e = stream_closed_event(id);
    assert_eq!(e.topics, stream_topics(Topic::Closed, id));
    assert_eq!(e.data, EventData::StreamEvent(StreamEvent::StreamClosed(id)));
    let e = stream_resumed_event(id);
    assert_eq!(e.topics, stream_topics(Topic::Resumed, id));
    assert_eq!(e.data, EventData::StreamEvent(StreamEvent::Resumed(id)));
}

#[test]
fn paused_event_publishes_the_reason_struct() {
    let payload = StreamPaused { stream_id: 4, reason: b"ops".to_vec() };
    let e = stream_paused_event(4, payload.clone());
    assert_eq!(e.topics, stream_topics(Topic::Paused, 4));
    assert_eq!(e.data, EventData::StreamPaused(payload));
}

#[test]
fn rate_and_schedule_events() {
    let p = RateUpdated { stream_id: 1, old_rate_per_second: 1, new_rate_per_second: 2, effective_time: 5 };
    let e = rate_updated_event(1, p.clone());
    assert_eq!(e.topics, stream_topics(Topic::RateUpdated, 1));
    assert_eq!(e.data, EventData::RateUpdated(p));

    let p = RateDecreased {
        stream_id: 1,
        old_rate_per_second: 2,
        new_rate_per_second: 1,
        effective_time: 5,
        checkpointed_amount: 10,
        refund_amount: 7,
    };
    let e = rate_decreased_event(1, p.clone());
    assert_eq!(e.topics, stream_topics(Topic::RateDecreased, 1));
    assert_eq!(e.data, EventData::RateDecreased(p));

    let p = RateCapEnforced { stream_id: 1, attempted_rate: 100, max_rate_per_second: 50 };
    let e = rate_cap_enforced_event(1, p.clone());
    assert_eq!(e.topics, stream_topics(Topic::RateCapEnforced, 1));
    assert_eq!(e.data, EventData::RateCapEnforced(p));

    let p = StreamEndShortened { stream_id: 2, old_end_time: 100, new_end_time: 50, refund_amount: 50 };
    let e = stream_end_shortened_event(2, p.clone());
    assert_eq!(e.topics, stream_topics(Topic::EndShortened, 2));
    assert_eq!(e.data, EventData::StreamEndShortened(p));

    let p = StreamEndExtended { stream_id: 2, old_end_time: 50, new_end_time: 100 };
    let e = stream_end_extended_event(2, p.clone());
    assert_eq!(e.topics, stream_topics(Topic::EndExtended, 2));
    assert_eq!(e.data, EventData::StreamEndExtended(p));

    let p = StreamToppedUp { stream_id: 2, top_up_amount: 10, new_deposit_amount: 110, new_end_time: 110 };
    let e = stream_topped_up_event(2, p.clone());
    assert_eq!(e.topics, stream_topics(Topic::ToppedUp, 2));
    assert_eq!(e.data, EventData::StreamToppedUp(p));

    let p = StreamHealthChanged { stream_id: 2, is_underfunded: true, remaining_balance: 0, seconds_remaining: 0 };
    let e = stream_health_changed_event(2, p.clone());
    assert_eq!(e.topics, stream_topics(Topic::HealthChanged, 2));
    assert_eq!(e.data, EventData::StreamHealthChanged(p));

    let p = RecipientUpdated { stream_id: 2, old_recipient: addr("GA"), new_recipient: addr("GB") };
    let e = recipient_updated_event(2, p.clone());
    assert_eq!(e.topics, stream_topics(Topic::RecipientUpdated, 2));
    assert_eq!(e.data, EventData::RecipientUpdated(p));
}

#[test]
fn contract_level_events_have_a_single_topic() {
    let p = GlobalEmergencyPauseChanged { paused: true };
    let e = global_emergency_pause_changed_event(p.clone());
    assert_eq!(e.topics, vec![TopicValue::Symbol(Topic::GlobalPause)]);
    assert_eq!(e.data, EventData::GlobalEmergencyPauseChanged(p));

    let p = GlobalResumed { resumed_at: 77 };
    let e = global_resumed_event(p.clone());
    assert_eq!(e.topics, vec![TopicValue::Symbol(Topic::GlobalResume)]);
    assert_eq!(e.data, EventData::GlobalResumed(p));

    let p = ContractPauseChanged { paused: false };
    let e = contract_pause_changed_event(p.clone());
    assert_eq!(e.topics, vec![TopicValue::Symbol(Topic::ContractPause)]);
    assert_eq!(e.data, EventData::ContractPauseChanged(p));
}

#[test]
fn address_keyed_events_put_the_address_second() {
    let p = ProtocolPaused { reason: vec![0xff, 0x00, b'm'], paused_at: 10 };
    let e = protocol_paused_event(addr("GADMIN"), p.clone());
    assert_eq!(e.topics, vec![TopicValue::Symbol(Topic::ProtocolPause), TopicValue::Address(addr("GADMIN"))]);
    assert_eq!(e.data, EventData::ProtocolPaused(p));

    let p = ProtocolResumed { resumed_at: 11 };
    let e = protocol_resumed_event(addr("GADMIN"), p.clone());
    assert_eq!(e.topics, vec![TopicValue::Symbol(Topic::ProtocolResume), TopicValue::Address(addr("GADMIN"))]);
    assert_eq!(e.data, EventData::ProtocolResumed(p));

    let p = ExcessSwept { to: addr("GTO"), amount: 5 };
    let e = excess_swept_event(addr("GRECIPIENT"), p.clone());
    assert_eq!(e.topics, vec![TopicValue::Symbol(Topic::ExcessSwept), TopicValue::Address(addr("GRECIPIENT"))]);
    assert_eq!(e.data, EventData::ExcessSwept(p));
}

#[test]
fn auto_claim_clone_keeper_events() {
    let p = AutoClaimSet { stream_id: 5, destination: addr("GD") };
    let e = auto_claim_set_event(5, p.clone());
    assert_eq!(e.topics, stream_topics(Topic::AutoClaimSet, 5));
    assert_eq!(e.data, EventData::AutoClaimSet(p));

    let p = AutoClaimRevoked { stream_id: 5 };
    let e = auto_claim_revoked_event(5, p.clone());
    assert_eq!(e.topics, stream_topics(Topic::AutoClaimRevoked, 5));
    assert_eq!(e.data, EventData::AutoClaimRevoked(p));

    let p = AutoClaimTriggered { stream_id: 5, destination: addr("GD"), amount: 42 };
    let e = auto_claim_triggered_event(5, p.clone());
    assert_eq!(e.topics, stream_topics(Topic::AutoClaimTriggered, 5));
    assert_eq!(e.data, EventData::AutoClaimTriggered(p));

    let p = StreamCloned {
        new_stream_id: 6,
        source_stream_id: 5,
        sender: addr("GS"),
        recipient: addr("GR"),
        deposit_amount: 10,
        rate_per_second: 1,
        start_time: 0,
        cliff_time: 0,
        end_time: 10,
        withdraw_dust_threshold: 0,
    };
    let e = stream_cloned_event(6, p.clone());
    assert_eq!(e.topics, stream_topics(Topic::Cloned, 6));
    assert_eq!(e.data, EventData::StreamCloned(p));

    let p = KeeperCancelled {
        stream_id: 5,
        keeper: addr("GK"),
        keeper_fee: 1,
        recipient_amount: 2,
        sender_refund: 3,
    };
    let e = keeper_cancelled_event(5, p.clone());
    assert_eq!(e.topics, stream_topics(Topic::KeeperCancelled, 5));
    assert_eq!(e.data, EventData::KeeperCancelled(p));
}

#[test]
fn decommissioned_event_builds_its_payload() {
    let e = stream_decommissioned_event(12, true);
    assert_eq!(e.topics, stream_topics(Topic::Decommissioned, 12));
    assert_eq!(
        e.data,
        EventData::StreamDecommissioned(StreamDecommissioned { stream_id: 12, decommissioned: true })
    );
    let e = stream_decommissioned_event(0, false);
    assert_eq!(
        e.data,
        EventData::StreamDecommissioned(StreamDecommissioned { stream_id: 0, decommissioned: false })
    );
}

#[test]
fn emitted_events_have_their_topic_cardinality() {
    let events = vec![
        stream_cancelled_event(1),
        global_resumed_event(GlobalResumed { resumed_at: 1 }),
        protocol_resumed_event(addr("GA"), ProtocolResumed { resumed_at: 1 }),
        stream_decommissioned_event(1, true),
    ];
    for e in events {
        match &e.topics[0] {
            TopicValue::Symbol(t) => assert_eq!(e.topics.len(), t.cardinality()),
            _ => panic!("first topic is not a symbol"),
        }
    }
}
