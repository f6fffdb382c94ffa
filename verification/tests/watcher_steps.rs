use uplink_core::conversation::ConversationInfo;
use uplink_core::retry::{Backoff, StreamError};
use uplink_core::watcher::{Command, Event, Outcome, Phase, Subscription, WatchKey, Watcher};
use uuid::Uuid;

fn uid(n: u128) -> Uuid {
    Uuid::from_u128(n)
}

fn key(active: bool) -> WatchKey {
    WatchKey { active, counter: 0 }
}

fn only(command: Command) -> Outcome {
    Outcome { command, publish: None, unread_changed: false, abandon: false }
}

fn started(info: ConversationInfo, active: bool) -> Watcher {
    let mut watcher = Watcher::new(info, key(active));
    assert_eq!(watcher.step(Event::Start), only(Command::FetchHistory));
    assert_eq!(watcher.phase(), Phase::CatchingUp);
    watcher
}

fn streaming(info: ConversationInfo, history: Vec<Uuid>) -> Watcher {
    let mut watcher = started(info, false);
    assert_eq!(watcher.step(Event::History(history)).command, Command::OpenStream);
    assert_eq!(watcher.step(Event::StreamOpened), only(Command::NextEvent));
    assert!(watcher.holds_stream());
    watcher
}

#[test]
fn a_new_watcher_is_idle_with_nothing_unread() {
    let info = ConversationInfo::new(uid(100));
    let watcher = Watcher::new(info, key(false));
    assert_eq!(watcher.phase(), Phase::Idle);
    assert_eq!(watcher.unread(), 0);
    assert_eq!(watcher.info(), info);
    assert_eq!(watcher.key(), key(false));
    assert!(!watcher.holds_stream());
}

#[test]
fn off_screen_catch_up_counts_the_messages_after_the_watermark() {
    let info = ConversationInfo::new(uid(100)).read_up_to(uid(1));
    let mut watcher = started(info, false);
    let out = watcher.step(Event::History(vec![uid(1), uid(2), uid(3)]));
    assert_eq!(
        out,
        Outcome { command: Command::OpenStream, publish: None, unread_changed: true, abandon: false }
    );
    assert_eq!(watcher.unread(), 2);
    assert_eq!(watcher.info(), info);
    assert_eq!(watcher.phase(), Phase::Streaming(Subscription::Opening));
}

#[test]
fn off_screen_catch_up_without_a_watermark_counts_everything() {
    let mut watcher = started(ConversationInfo::new(uid(100)), false);
    watcher.step(Event::History(vec![uid(1), uid(2), uid(3)]));
    assert_eq!(watcher.unread(), 3);
    assert_eq!(watcher.info().last_msg_read, None);
}

#[test]
fn on_screen_catch_up_with_an_empty_history_leaves_the_watermark_unset() {
    let info = ConversationInfo::new(uid(100));
    let mut watcher = started(info, true);
    let out = watcher.step(Event::History(Vec::new()));
    assert_eq!(out, only(Command::Park));
    assert_eq!(watcher.unread(), 0);
    assert_eq!(watcher.info().last_msg_read, None);
    assert_eq!(watcher.phase(), Phase::Settled);
}

#[test]
fn on_screen_catch_up_moves_the_watermark_to_the_newest_message() {
    let info = ConversationInfo::new(uid(100)).read_up_to(uid(1));
    let mut watcher = started(info, true);
    let out = watcher.step(Event::History(vec![uid(1), uid(2), uid(3)]));
    let read = ConversationInfo { conversation: uid(100), last_msg_read: Some(uid(3)) };
    assert_eq!(
        out,
        Outcome { command: Command::Park, publish: Some(read), unread_changed: false, abandon: false }
    );
    assert_eq!(watcher.info(), read);
    assert_eq!(watcher.unread(), 0);
    assert_eq!(watcher.phase(), Phase::Settled);
    assert!(!watcher.holds_stream());
}

#[test]
fn on_screen_catch_up_with_an_empty_history_keeps_a_watermark_that_was_set() {
    let info = ConversationInfo::new(uid(100)).read_up_to(uid(1));
    let mut watcher = started(info, true);
    let out = watcher.step(Event::FetchFailed);
    assert_eq!(out, only(Command::Park));
    assert_eq!(watcher.info(), info);
    assert_eq!(watcher.unread(), 0);
}

#[test]
fn a_failed_fetch_counts_as_an_empty_history() {
    let info = ConversationInfo::new(uid(100)).read_up_to(uid(1));
    let mut failed = started(info, false);
    let mut empty = started(info, false);
    let after_failure = failed.step(Event::FetchFailed);
    let after_empty = empty.step(Event::History(Vec::new()));
    assert_eq!(after_failure, after_empty);
    assert_eq!(after_failure, only(Command::OpenStream));
    assert_eq!(failed.unread(), 0);
    assert_eq!(failed.phase(), empty.phase());
    assert_eq!(failed.info(), empty.info());
}

#[test]
fn three_unready_answers_mean_three_short_waits_then_streaming() {
    let mut watcher = started(ConversationInfo::new(uid(100)), false);
    assert_eq!(watcher.step(Event::History(vec![uid(1)])).command, Command::OpenStream);
    let mut short_waits = 0;
    for _ in 0..3 {
        let wait = watcher.step(Event::OpenFailed(StreamError::NotReady));
        assert_eq!(wait, only(Command::Sleep(Backoff::Short)));
        assert_eq!(watcher.phase(), Phase::Streaming(Subscription::BackingOff));
        if let Command::Sleep(backoff) = wait.command {
            assert_eq!(backoff.millis(), 10);
            short_waits += 1;
        }
        assert_eq!(watcher.step(Event::BackoffElapsed), only(Command::OpenStream));
        assert_eq!(watcher.phase(), Phase::Streaming(Subscription::Opening));
    }
    assert_eq!(short_waits, 3);
    assert_eq!(watcher.step(Event::StreamOpened), only(Command::NextEvent));
    assert_eq!(watcher.phase(), Phase::Streaming(Subscription::Live));
    assert_eq!(watcher.unread(), 1);
    assert_eq!(watcher.step(Event::MessageReceived(uid(2))).command, Command::NextEvent);
    assert_eq!(watcher.unread(), 2);
}

#[test]
fn another_failure_means_a_long_wait_and_another_attempt() {
    let mut watcher = started(ConversationInfo::new(uid(100)), false);
    watcher.step(Event::History(Vec::new()));
    let wait = watcher.step(Event::OpenFailed(StreamError::Other));
    assert_eq!(wait, only(Command::Sleep(Backoff::Long)));
    if let Command::Sleep(backoff) = wait.command {
        assert_eq!(backoff.millis(), 300_000);
    }
    assert_eq!(watcher.step(Event::BackoffElapsed), only(Command::OpenStream));
}

#[test]
fn a_message_off_screen_is_one_more_unread() {
    let info = ConversationInfo::new(uid(100)).read_up_to(uid(2));
    let mut watcher = streaming(info, vec![uid(1), uid(2), uid(3)]);
    assert_eq!(watcher.unread(), 1);
    let out = watcher.step(Event::MessageReceived(uid(4)));
    assert_eq!(
        out,
        Outcome { command: Command::NextEvent, publish: None, unread_changed: true, abandon: false }
    );
    assert_eq!(watcher.unread(), 2);
    assert_eq!(watcher.info(), info);
    assert!(watcher.holds_stream());
}

#[test]
fn other_stream_events_change_nothing() {
    let info = ConversationInfo::new(uid(100));
    let mut watcher = streaming(info, vec![uid(1)]);
    assert_eq!(watcher.step(Event::OtherEvent), only(Command::NextEvent));
    assert_eq!(watcher.unread(), 1);
    assert_eq!(watcher.info(), info);
    assert!(watcher.holds_stream());
}

#[test]
fn the_end_of_the_stream_parks_the_watcher() {
    let mut watcher = streaming(ConversationInfo::new(uid(100)), vec![uid(1)]);
    assert_eq!(watcher.step(Event::StreamClosed), only(Command::Park));
    assert_eq!(watcher.phase(), Phase::Idle);
    assert!(!watcher.holds_stream());
    assert_eq!(watcher.unread(), 1);
}

#[test]
fn becoming_active_while_streaming_restarts_and_clears_unread() {
    let info = ConversationInfo::new(uid(100));
    let mut watcher = streaming(info, vec![uid(1), uid(2)]);
    assert_eq!(watcher.unread(), 2);
    let restart = watcher.rekey(key(true));
    assert_eq!(
        restart,
        Outcome { command: Command::FetchHistory, publish: None, unread_changed: false, abandon: true }
    );
    assert_eq!(watcher.phase(), Phase::CatchingUp);
    assert!(!watcher.holds_stream());
    let out = watcher.step(Event::History(vec![uid(1), uid(2)]));
    let read = ConversationInfo { conversation: uid(100), last_msg_read: Some(uid(2)) };
    assert_eq!(
        out,
        Outcome { command: Command::Park, publish: Some(read), unread_changed: true, abandon: false }
    );
    assert_eq!(watcher.unread(), 0);
    assert_eq!(watcher.phase(), Phase::Settled);
}

#[test]
fn going_off_screen_restarts_a_settled_watcher() {
    let mut watcher = started(ConversationInfo::new(uid(100)), true);
    watcher.step(Event::History(vec![uid(1)]));
    assert_eq!(watcher.phase(), Phase::Settled);
    let restart = watcher.rekey(key(false));
    assert_eq!(restart, only(Command::FetchHistory));
    assert_eq!(watcher.key(), key(false));
    let out = watcher.step(Event::History(vec![uid(1), uid(2), uid(3)]));
    assert_eq!(out.command, Command::OpenStream);
    assert_eq!(watcher.unread(), 2);
}

#[test]
fn the_same_key_changes_nothing() {
    let mut watcher = streaming(ConversationInfo::new(uid(100)), vec![uid(1)]);
    assert_eq!(watcher.rekey(key(false)), only(Command::Ignore));
    assert!(watcher.holds_stream());
    assert_eq!(watcher.unread(), 1);
}

#[test]
fn another_counter_restarts_the_watcher() {
    let mut watcher = streaming(ConversationInfo::new(uid(100)), vec![uid(1)]);
    let restart = watcher.rekey(WatchKey { active: false, counter: 1 });
    assert_eq!(restart.command, Command::FetchHistory);
    assert!(restart.abandon);
    assert_eq!(watcher.phase(), Phase::CatchingUp);
    assert_eq!(watcher.key(), WatchKey { active: false, counter: 1 });
}

#[test]
fn events_that_nothing_waits_for_are_ignored() {
    let info = ConversationInfo::new(uid(100));
    let mut idle = Watcher::new(info, key(false));
    assert_eq!(idle.step(Event::History(vec![uid(1)])), only(Command::Ignore));
    assert_eq!(idle.step(Event::MessageReceived(uid(1))), only(Command::Ignore));
    assert_eq!(idle.phase(), Phase::Idle);
    assert_eq!(idle.unread(), 0);

    let mut catching_up = started(info, false);
    assert_eq!(catching_up.step(Event::StreamOpened), only(Command::Ignore));
    assert_eq!(catching_up.step(Event::Start), only(Command::Ignore));
    assert_eq!(catching_up.phase(), Phase::CatchingUp);

    let mut settled = started(info, true);
    settled.step(Event::History(vec![uid(1)]));
    assert_eq!(settled.step(Event::MessageReceived(uid(2))), only(Command::Ignore));
    assert_eq!(settled.step(Event::BackoffElapsed), only(Command::Ignore));
    assert_eq!(settled.phase(), Phase::Settled);
    assert_eq!(settled.unread(), 0);
    assert_eq!(settled.info().last_msg_read, Some(uid(1)));
}

#[test]
fn every_event_is_accepted_while_the_counter_has_room() {
    let watcher = streaming(ConversationInfo::new(uid(100)), vec![uid(1)]);
    assert!(watcher.accepts(&Event::MessageReceived(uid(2))));
    assert!(watcher.accepts(&Event::StreamClosed));
    assert!(watcher.accepts(&Event::History(Vec::new())));
}

#[test]
fn the_counter_follows_the_history_and_then_the_arrivals() {
    let info = ConversationInfo::new(uid(100)).read_up_to(uid(2));
    let mut watcher = streaming(info, vec![uid(1), uid(2), uid(3)]);
    let mut arrived = vec![uid(1), uid(2), uid(3)];
    for n in 4..10 {
        watcher.step(Event::MessageReceived(uid(n)));
        arrived.push(uid(n));
        assert_eq!(watcher.unread(), uplink_core::unread::count_unread(&arrived, Some(uid(2))));
    }
    assert_eq!(watcher.unread(), 7);
    assert_eq!(watcher.info(), info);
}

#[test]
fn a_watcher_on_screen_never_asks_for_a_stream() {
    let events = || {
        vec![
            Event::Start,
            Event::StreamOpened,
            Event::History(vec![uid(1), uid(2)]),
            Event::StreamOpened,
            Event::MessageReceived(uid(3)),
            Event::OpenFailed(StreamError::NotReady),
            Event::BackoffElapsed,
            Event::FetchFailed,
            Event::OtherEvent,
            Event::StreamClosed,
            Event::Start,
            Event::History(vec![uid(1), uid(2), uid(3)]),
            Event::StreamOpened,
        ]
    };
    let mut watcher = Watcher::new(ConversationInfo::new(uid(100)), key(true));
    for event in events() {
        let out = watcher.step(event);
        assert_ne!(out.command, Command::OpenStream);
        assert_ne!(out.command, Command::NextEvent);
        assert!(!watcher.holds_stream());
    }
    assert_eq!(watcher.phase(), Phase::Settled);
    assert_eq!(watcher.unread(), 0);

    let mut off_screen = Watcher::new(ConversationInfo::new(uid(100)), key(false));
    for event in events() {
        off_screen.step(event);
        assert!(!off_screen.holds_stream() || !off_screen.key().active);
    }
    assert!(off_screen.holds_stream());
}
