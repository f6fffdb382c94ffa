use uplink_core::unread::count_unread;
use uuid::Uuid;

fn msg(n: u128) -> Uuid {
    Uuid::from_u128(n)
}

#[test]
fn two_messages_after_the_watermark_are_unread() {
    let history = vec![msg(1), msg(2), msg(3)];
    assert_eq!(count_unread(&history, Some(msg(1))), 2);
}

#[test]
fn without_a_watermark_every_message_is_unread() {
    let history = vec![msg(1), msg(2), msg(3), msg(4)];
    assert_eq!(count_unread(&history, None), 4);
}

#[test]
fn an_empty_history_has_nothing_unread() {
    let history: Vec<Uuid> = Vec::new();
    assert_eq!(count_unread(&history, None), 0);
    assert_eq!(count_unread(&history, Some(msg(9))), 0);
}

#[test]
fn watermark_on_the_newest_message_leaves_nothing_unread() {
    let history = vec![msg(1), msg(2), msg(3)];
    assert_eq!(count_unread(&history, Some(msg(3))), 0);
}

#[test]
fn watermark_that_the_history_does_not_hold_counts_everything() {
    let history = vec![msg(1), msg(2), msg(3)];
    assert_eq!(count_unread(&history, Some(msg(7))), 3);
}

#[test]
fn a_repeated_watermark_counts_from_its_last_occurrence() {
    let history = vec![msg(1), msg(5), msg(2), msg(5), msg(3), msg(4)];
    assert_eq!(count_unread(&history, Some(msg(5))), 2);
}

#[test]
fn identifiers_that_differ_in_one_bit_are_told_apart() {
    let low = Uuid::from_u128(0x0000_0000_0000_0000_0000_0000_0000_0001);
    let high = Uuid::from_u128(0x8000_0000_0000_0000_0000_0000_0000_0001);
    let history = vec![low, high, low];
    assert_eq!(count_unread(&history, Some(high)), 1);
    assert_eq!(count_unread(&history, Some(low)), 0);
}
