use uplink_core::conversation::ConversationInfo;
use uuid::Uuid;

#[test]
fn a_new_projection_has_no_watermark() {
    let id = Uuid::from_u128(42);
    let info = ConversationInfo::new(id);
    assert_eq!(info.conversation, id);
    assert_eq!(info.last_msg_read, None);
    assert_eq!(info, ConversationInfo { conversation: id, last_msg_read: None });
}

#[test]
fn reading_moves_the_watermark_and_keeps_the_conversation() {
    let id = Uuid::from_u128(42);
    let info = ConversationInfo::new(id).read_up_to(Uuid::from_u128(1));
    assert_eq!(info.last_msg_read, Some(Uuid::from_u128(1)));
    let info = info.read_up_to(Uuid::from_u128(2));
    assert_eq!(info, ConversationInfo { conversation: id, last_msg_read: Some(Uuid::from_u128(2)) });
}

#[test]
fn a_projection_belongs_to_its_conversation_only() {
    let info = ConversationInfo::new(Uuid::from_u128(42)).read_up_to(Uuid::from_u128(43));
    assert!(info.is_for(&Uuid::from_u128(42)));
    assert!(!info.is_for(&Uuid::from_u128(43)));
    assert!(!info.is_for(&Uuid::nil()));
}
