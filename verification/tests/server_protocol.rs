use ssh3::proto::codec::{ChannelStreamHeader, ConversationId, SIGNAL_VALUE};
use ssh3::proto::varint::{encode_varint_sync, VarInt};
use ssh3::server::error::{map_poison, ServerError};
use ssh3::server::protocol::{ConversationState, Ssh3Protocol, Ssh3ProtocolFactory, StreamVerdict};

fn header_bytes(conversation_id: u64, max_message_size: u64) -> Vec<u8> {
    ChannelStreamHeader::new(
        ConversationId::new(conversation_id),
        "session".to_string(),
        max_message_size,
    )
    .encode_to_vec()
    .unwrap()
}

fn dispatches(protocol: &Ssh3Protocol, conversation_id: u64) -> bool {
    matches!(
        protocol.accept_bi(&header_bytes(conversation_id, 65535), false),
        StreamVerdict::Dispatched { .. }
    )
}

#[test]
fn register_and_unregister_conversation() {
    let mut proto = Ssh3Protocol::new();
    proto.register_conversation(42).unwrap();
    assert_eq!(proto.state(42), Some(ConversationState::Active));
    assert!(dispatches(&proto, 42));
    proto.unregister_conversation(42);
    assert_eq!(proto.state(42), None);
    assert!(!dispatches(&proto, 42));
}

#[test]
fn unregister_drops_sender() {
    let mut proto = Ssh3Protocol::new();
    proto.register_conversation(99).unwrap();
    proto.unregister_conversation(99);
    assert!(proto.is_empty());
    assert!(!dispatches(&proto, 99));
}

#[test]
fn conversation_dispatch_via_registry() {
    let mut proto = Ssh3Protocol::new();
    let slot = proto.register_conversation(12345).unwrap();
    let data = header_bytes(12345, 1 << 20);
    match proto.accept_bi(&data, false) {
        StreamVerdict::Dispatched {
            slot: at,
            header,
            consumed,
        } => {
            assert_eq!(at, slot);
            assert_eq!(header.conversation_id, ConversationId::new(12345));
            assert_eq!(header.channel_type, "session");
            assert_eq!(header.max_message_size, 1 << 20);
            assert_eq!(consumed, data.len());
        }
        other => panic!("expected Dispatched, got {other:?}"),
    }
}

#[test]
fn unregistered_conversation_no_panic() {
    let proto = Ssh3Protocol::new();
    assert!(matches!(
        proto.accept_bi(&header_bytes(9999, 65535), false),
        StreamVerdict::NoConversation { .. }
    ));
}

#[test]
fn signal_value_detection() {
    assert_eq!(SIGNAL_VALUE, 0xaf3627e6);
    let mut encoded = Vec::new();
    encode_varint_sync(VarInt::from_u64(SIGNAL_VALUE as u64).unwrap(), &mut encoded);
    assert_eq!(encoded.len(), 8);
    assert_eq!(encoded, 0xC000_0000_AF36_27E6u64.to_be_bytes());
}

#[test]
fn multiple_conversations_isolated() {
    let mut proto = Ssh3Protocol::new();
    proto.register_conversation(100).unwrap();
    proto.register_conversation(200).unwrap();
    assert!(dispatches(&proto, 100));
    assert!(dispatches(&proto, 200));
    assert!(!dispatches(&proto, 300));
    proto.unregister_conversation(100);
    assert!(!dispatches(&proto, 100));
    assert!(dispatches(&proto, 200));
}

#[test]
fn re_register_conversation() {
    let mut proto = Ssh3Protocol::new();
    let first = proto.register_conversation(42).unwrap();
    let second = proto.register_conversation(42).unwrap();
    assert_ne!(first, second);
    match proto.accept_bi(&header_bytes(42, 1), false) {
        StreamVerdict::Dispatched { slot, .. } => assert_eq!(slot, second),
        other => panic!("expected Dispatched, got {other:?}"),
    }
}

#[test]
fn channel_header_with_ssh3_signal_roundtrip() {
    let header = ChannelStreamHeader::new(ConversationId::new(42), "session".to_string(), 65535);
    let data = header.encode_to_vec().unwrap();
    assert_eq!(data[..8], 0xC000_0000_AF36_27E6u64.to_be_bytes());
    let (decoded, _) = ChannelStreamHeader::decode_from_slice(&data).unwrap();
    assert_eq!(decoded, header);
}

#[test]
fn default_creates_empty_protocol() {
    assert!(Ssh3Protocol::new().is_empty());
    assert!(Ssh3ProtocolFactory.init().is_empty());
}

#[test]
fn reserve_conversation_starts_non_active() {
    let mut proto = Ssh3Protocol::new();
    let reserved = proto.reserve_conversation(77).unwrap();
    assert_eq!(proto.state(77), Some(ConversationState::Reserved));
    assert!(!dispatches(&proto, 77));
    reserved.release(&mut proto);
    assert_eq!(proto.state(77), None);
}

#[test]
fn conversation_goes_through_its_states_in_order() {
    let mut proto = Ssh3Protocol::new();
    let reserved = proto.create_transport(8).unwrap();
    assert_eq!(reserved.conversation_id(), 8);
    reserved.transition_to_authenticating(&mut proto).unwrap();
    assert_eq!(proto.state(8), Some(ConversationState::Authenticating));
    let lease = reserved.consume_into_lease(&mut proto).unwrap();
    assert_eq!(proto.state(8), Some(ConversationState::Upgrading));
    lease.transition_to_active(&mut proto).unwrap();
    assert_eq!(proto.state(8), Some(ConversationState::Active));
    assert!(dispatches(&proto, 8));
    lease.release(&mut proto);
    assert_eq!(proto.state(8), None);
}

#[test]
fn transition_from_another_state_is_refused() {
    let mut proto = Ssh3Protocol::new();
    let reserved = proto.create_transport(8).unwrap();
    reserved.transition_to_authenticating(&mut proto).unwrap();
    let error = reserved.transition_to_authenticating(&mut proto).unwrap_err();
    assert_eq!(
        error.to_string(),
        "invalid conversation slot state: current state is Authenticating"
    );
    let other = proto.create_transport(12).unwrap();
    assert!(matches!(
        other.consume_into_lease(&mut proto),
        Err(ServerError::InvalidConversationSlotState {
            state: ConversationState::Reserved
        })
    ));
    assert_eq!(proto.state(12), None);
    assert_eq!(proto.state(8), Some(ConversationState::Authenticating));
}

#[test]
fn endpoint_is_handed_out_once() {
    let mut proto = Ssh3Protocol::new();
    let mut reserved = proto.reserve_conversation(3).unwrap();
    reserved.transport_server(&proto).unwrap();
    assert_eq!(
        reserved.transport_server(&proto).unwrap_err().to_string(),
        "conversation endpoint already consumed for 3"
    );
}

#[test]
fn handoff_needs_the_endpoint() {
    let mut proto = Ssh3Protocol::new();
    let reserved = proto.reserve_conversation(3).unwrap();
    reserved.transition_to_authenticating(&mut proto).unwrap();
    let lease = reserved.handoff_to_supervisor(&mut proto).unwrap();
    assert_eq!(lease.conversation_id(), 3);
    let taken = proto.create_transport(5).unwrap();
    taken.transition_to_authenticating(&mut proto).unwrap();
    assert!(matches!(
        taken.handoff_to_supervisor(&mut proto),
        Err(ServerError::ConsumedConversationEndpoint { conversation_id: 5 })
    ));
    assert_eq!(proto.state(5), None);
    assert_eq!(proto.state(3), Some(ConversationState::Upgrading));
}

#[test]
fn signal_is_compared_in_full() {
    let proto = Ssh3Protocol::new();
    let mut data = Vec::new();
    encode_varint_sync(VarInt::from_u64(0x1_af36_27e6).unwrap(), &mut data);
    assert_eq!(proto.accept_bi(&data, false), StreamVerdict::Passed);
    data.extend_from_slice(&header_bytes(1, 1)[8..]);
    assert_eq!(proto.accept_bi(&data, true), StreamVerdict::Passed);
}

#[test]
fn release_leaves_a_later_registration_alone() {
    let mut proto = Ssh3Protocol::new();
    let reserved = proto.reserve_conversation(6).unwrap();
    proto.register_conversation(6).unwrap();
    reserved.release(&mut proto);
    assert_eq!(proto.state(6), Some(ConversationState::Active));
}

#[test]
fn streams_of_others_are_passed_on() {
    let proto = Ssh3Protocol::new();
    assert_eq!(proto.accept_bi(&[], false), StreamVerdict::NeedMore);
    assert_eq!(proto.accept_bi(&[], true), StreamVerdict::Passed);
    assert_eq!(proto.accept_bi(&[0x41, 0], false), StreamVerdict::Passed);
    let data = header_bytes(1, 1);
    assert_eq!(proto.accept_bi(&data[..9], false), StreamVerdict::NeedMore);
    assert_eq!(proto.accept_bi(&data[..8], true), StreamVerdict::BadHeader);
}

#[test]
fn a_lock_in_disorder_is_told_by_which_it_is() {
    assert_eq!(
        map_poison(false).to_string(),
        ServerError::RegistryPoisoned.to_string()
    );
    assert_eq!(
        map_poison(true).to_string(),
        ServerError::StatePoisoned.to_string()
    );
    assert_ne!(map_poison(true).to_string(), map_poison(false).to_string());
}
