//! Redelivery of negatively acknowledged messages.
use pulsar::error::ConnectionError;
use pulsar::message::MessageIdData;
use pulsar::nack::{MessageResend, NackAction, NackEvent, NackHandler, NackMessage, Redelivery};
use pulsar::nack_batches::{BatchTracker, MessageData};
use pulsar::poll::Poll;
use pulsar::time::Duration;

fn entry(entry_id: u64) -> MessageIdData {
    MessageIdData { ledger_id: 1, entry_id, partition: None, batch_index: None }
}

fn single(entry_id: u64) -> MessageData {
    MessageData { id: entry(entry_id), batch_size: None }
}

fn batched(entry_id: u64, index: i32, size: i32) -> MessageData {
    MessageData {
        id: MessageIdData { batch_index: Some(index), ..entry(entry_id) },
        batch_size: Some(size),
    }
}

fn nack(consumer_id: u64, message_ids: Vec<MessageData>) -> NackMessage {
    NackMessage { consumer_id, message_ids }
}

#[test]
fn batch_is_redelivered_once() {
    let mut tracker = BatchTracker::new();
    assert_eq!(tracker.should_nack(batched(9, 1, 3)), Some(entry(9)));
    assert_eq!(tracker.should_nack(batched(9, 1, 3)), None);
    assert_eq!(tracker.should_nack(batched(9, 0, 3)), None);
    assert_eq!(tracker.should_nack(batched(9, 2, 3)), None);
    // all three were seen, so the batch is forgotten and a new round begins
    assert_eq!(tracker.should_nack(batched(9, 0, 3)), Some(entry(9)));
}

#[test]
fn batches_do_not_disturb_each_other() {
    let mut tracker = BatchTracker::new();
    assert_eq!(tracker.should_nack(batched(1, 0, 2)), Some(entry(1)));
    assert_eq!(tracker.should_nack(batched(2, 0, 2)), Some(entry(2)));
    assert_eq!(tracker.should_nack(batched(1, 1, 2)), None);
    assert_eq!(tracker.should_nack(batched(2, 0, 2)), None);
}

#[test]
fn messages_outside_of_batches_are_always_redelivered() {
    let mut tracker = BatchTracker::new();
    assert_eq!(tracker.should_nack(single(4)), Some(entry(4)));
    assert_eq!(tracker.should_nack(single(4)), Some(entry(4)));
    assert_eq!(tracker.should_nack(batched(4, 0, 1)), Some(entry(4)));
    assert_eq!(tracker.should_nack(batched(4, -1, 5)), Some(entry(4)));
    let no_size = MessageData {
        id: MessageIdData { batch_index: Some(3), ..entry(4) },
        batch_size: None,
    };
    assert_eq!(tracker.should_nack(no_size), Some(entry(4)));
}

#[test]
fn messages_beyond_their_batch_are_not_accepted() {
    let mut tracker = BatchTracker::new();
    assert!(tracker.accepts(batched(1, 1, 2)));
    assert!(!tracker.accepts(batched(1, 2, 2)));
    assert!(tracker.accepts(single(1)));
    assert!(tracker.accepts(batched(1, 7, 1)));
    tracker.should_nack(batched(1, 0, 2));
    // the size that the batch was first seen with counts
    assert!(!tracker.accepts(batched(1, 4, 8)));
    assert!(!tracker.accepts_all(&vec![single(2), batched(1, 4, 8)]));
    // the first completes the batch, so that the second starts a new one
    assert!(tracker.accepts_all(&vec![batched(1, 1, 2), batched(1, 4, 8)]));
    // asking changes nothing
    assert_eq!(tracker.should_nack(batched(1, 1, 2)), None);
}

#[test]
fn copies_of_a_tracker_know_the_same() {
    let mut tracker = BatchTracker::new();
    tracker.should_nack(batched(1, 0, 2));
    let mut copy = tracker.copy();
    assert_eq!(copy.should_nack(batched(1, 1, 2)), None);
    assert_eq!(copy.should_nack(batched(1, 1, 2)), Some(entry(1)));
    assert_eq!(tracker.should_nack(batched(1, 1, 2)), None);
}

#[test]
fn lists_of_messages_ask_for_each_entry_once() {
    let mut tracker = BatchTracker::new();
    let ids = tracker.should_nack_all(&vec![
        batched(1, 0, 3),
        single(2),
        batched(1, 1, 3),
        batched(3, 0, 2),
    ]);
    assert_eq!(ids, vec![entry(1), entry(2), entry(3)]);
    assert_eq!(tracker.should_nack_all(&vec![]), vec![]);
}

#[test]
fn resends_leave_by_time() {
    let mut handler = NackHandler::new(Some(Duration { secs: 0, subsec_nanos: 10 }));
    handler.handle_nack_at(nack(1, vec![single(1)]), 300);
    handler.handle_nack_at(nack(2, vec![single(2)]), 100);
    handler.handle_nack_at(nack(3, vec![single(3)]), 200);
    assert!(handler.next_ready_resend_at(109).is_none());
    assert_eq!(
        handler.next_ready_resend_at(110).unwrap(),
        MessageResend { when: 110, consumer_id: 2, message_ids: vec![entry(2)] }
    );
    assert!(handler.next_ready_resend_at(209).is_none());
    assert_eq!(handler.next_ready_resend_at(1000).unwrap().when, 210);
    assert_eq!(handler.next_ready_resend_at(1000).unwrap().when, 310);
    assert!(handler.next_ready_resend_at(u128::MAX).is_none());
}

#[test]
fn without_a_delay_nothing_waits() {
    let mut handler = NackHandler::new(None);
    handler.handle_nack(nack(1, vec![single(1)]));
    assert!(handler.next_ready_resend_at(u128::MAX).is_none());
    // the batch is tracked all the same
    assert_eq!(handler.should_nack(batched(5, 0, 2)), Some(entry(5)));
    assert_eq!(handler.should_nack(batched(5, 0, 2)), None);
}

#[test]
fn nacks_that_ask_for_nothing_do_not_wait() {
    let mut handler = NackHandler::new(Some(Duration::from_secs(0)));
    handler.handle_nack_at(nack(1, vec![batched(1, 0, 3)]), 0);
    handler.handle_nack_at(nack(1, vec![batched(1, 1, 3)]), 0);
    assert!(handler.next_ready_resend_at(0).is_some());
    assert!(handler.next_ready_resend_at(0).is_none());
}

#[test]
fn due_resends_are_put_together_by_consumer() {
    let mut handler = NackHandler::new(Some(Duration::from_secs(0)));
    handler.handle_nack(nack(9, vec![single(1)]));
    handler.handle_nack(nack(4, vec![single(2)]));
    handler.handle_nack(nack(9, vec![single(3), single(4)]));
    let groups = handler.collect_ready();
    assert_eq!(
        groups,
        vec![
            Redelivery { consumer_id: 4, message_ids: vec![entry(2)] },
            Redelivery { consumer_id: 9, message_ids: vec![entry(1), entry(3), entry(4)] },
        ]
    );
    assert_eq!(handler.collect_ready(), vec![]);
}

#[test]
fn exactly_what_is_due_is_collected() {
    let mut handler = NackHandler::new(Some(Duration { secs: 0, subsec_nanos: 10 }));
    handler.handle_nack_at(nack(2, vec![single(1)]), 30);
    handler.handle_nack_at(nack(1, vec![single(2)]), 10);
    handler.handle_nack_at(nack(2, vec![single(3)]), 20);
    handler.handle_nack_at(nack(3, vec![single(4)]), 31);
    // nothing leaves before its delay is over
    assert_eq!(handler.collect_ready_at(19), vec![]);
    assert_eq!(
        handler.collect_ready_at(40),
        vec![
            Redelivery { consumer_id: 1, message_ids: vec![entry(2)] },
            Redelivery { consumer_id: 2, message_ids: vec![entry(3), entry(1)] },
        ]
    );
    assert_eq!(handler.collect_ready_at(40), vec![]);
    assert_eq!(
        handler.collect_ready_at(41),
        vec![Redelivery { consumer_id: 3, message_ids: vec![entry(4)] }]
    );
    assert_eq!(handler.collect_ready_at(u128::MAX), vec![]);
}

#[test]
fn tick_sends_what_is_due_and_keeps_the_rest() {
    let hour = Duration::from_secs(3600);
    let mut handler = NackHandler::new(Some(hour));
    let message = nack(6, vec![single(1)]);
    handler.poll(NackEvent::Inbound(Poll::Ready(Some(message))));
    let action = handler.poll(NackEvent::Tick(Poll::Ready(Some(()))));
    assert!(matches!(action, NackAction::PollTick));
    // the entry waits from the time at which it was reported
    let when = handler.next_ready_resend_at(u128::MAX).unwrap().when;
    assert!(when >= hour.as_nanos() && when < 2 * hour.as_nanos());
}

#[test]
fn resends_wait_for_their_delay() {
    let mut handler = NackHandler::new(Some(Duration::from_secs(3600)));
    handler.handle_nack(nack(1, vec![single(1)]));
    assert!(handler.next_ready_resend().is_none());
    assert_eq!(handler.collect_ready(), vec![]);
    let mut eager = NackHandler::new(Some(Duration::from_secs(0)));
    eager.handle_nack(nack(1, vec![single(1)]));
    assert_eq!(eager.next_ready_resend().unwrap().message_ids, vec![entry(1)]);
}

#[test]
fn handler_runs_until_it_is_done() {
    let mut handler = NackHandler::new(Some(Duration::from_secs(0)));
    assert!(matches!(handler.poll(NackEvent::Woken), NackAction::PollInbound));
    let message = nack(6, vec![single(1)]);
    assert!(handler.accepts_all(&message.message_ids));
    let action = handler.poll(NackEvent::Inbound(Poll::Ready(Some(message))));
    assert!(matches!(action, NackAction::PollInbound));
    let action = handler.poll(NackEvent::Inbound(Poll::Pending));
    assert!(matches!(action, NackAction::PollTick));
    let action = handler.poll(NackEvent::Tick(Poll::Pending));
    assert!(matches!(action, NackAction::Return(Poll::Pending)));

    // the senders are gone, but an entry still waits
    assert!(matches!(handler.poll(NackEvent::Woken), NackAction::PollInbound));
    let action = handler.poll(NackEvent::Inbound(Poll::Ready(None)));
    assert!(matches!(action, NackAction::PollTick));
    let action = handler.poll(NackEvent::Tick(Poll::Pending));
    assert!(matches!(action, NackAction::Return(Poll::Pending)));

    assert!(matches!(handler.poll(NackEvent::Woken), NackAction::PollTick));
    match handler.poll(NackEvent::Tick(Poll::Ready(Some(())))) {
        NackAction::Send(redelivery) => {
            assert_eq!(redelivery, Redelivery { consumer_id: 6, message_ids: vec![entry(1)] })
        }
        _ => panic!("a redelivery was expected"),
    }
    assert!(matches!(handler.poll(NackEvent::Sent(Ok(()))), NackAction::PollTick));
    let action = handler.poll(NackEvent::Tick(Poll::Pending));
    assert!(matches!(action, NackAction::Return(Poll::Ready(Ok(())))));
}

#[test]
fn handler_ends_when_its_timer_or_its_connection_does() {
    let mut handler = NackHandler::new(None);
    let action = handler.poll(NackEvent::Tick(Poll::Ready(None)));
    assert!(matches!(action, NackAction::Return(Poll::Ready(Err(())))));
    let action = handler.poll(NackEvent::Sent(Err(ConnectionError::Disconnected)));
    assert!(matches!(action, NackAction::Return(Poll::Ready(Err(())))));
}

/// Three consumers have an entry each that is due, and a tick comes.
fn sending() -> NackHandler {
    let mut handler = NackHandler::new(Some(Duration::from_secs(0)));
    for consumer_id in [5, 3, 4] {
        handler.handle_nack(nack(consumer_id, vec![single(consumer_id)]));
    }
    let action = handler.poll(NackEvent::Tick(Poll::Ready(Some(()))));
    assert!(sends(action, 3));
    handler
}

fn sends(action: NackAction, consumer_id: u64) -> bool {
    match action {
        NackAction::Send(redelivery) => {
            redelivery == Redelivery { consumer_id, message_ids: vec![entry(consumer_id)] }
        }
        _ => false,
    }
}

#[test]
fn redeliveries_are_sent_one_after_the_other() {
    let mut handler = sending();
    assert!(sends(handler.poll(NackEvent::Sent(Ok(()))), 4));
    assert!(sends(handler.poll(NackEvent::Sent(Ok(()))), 5));
    assert!(matches!(handler.poll(NackEvent::Sent(Ok(()))), NackAction::PollTick));
}

#[test]
fn first_redelivery_that_fails_ends_the_handler() {
    let mut handler = sending();
    assert!(sends(handler.poll(NackEvent::Sent(Ok(()))), 4));
    let action = handler.poll(NackEvent::Sent(Err(ConnectionError::Disconnected)));
    assert!(matches!(action, NackAction::Return(Poll::Ready(Err(())))));
    assert!(matches!(handler.poll(NackEvent::Sent(Ok(()))), NackAction::PollTick));
}

#[test]
fn inbound_stays_closed() {
    let mut handler = NackHandler::new(None);
    assert!(handler.next_inbound(Poll::Pending).is_none());
    assert_eq!(
        handler.next_inbound(Poll::Ready(Some(nack(1, vec![])))),
        Some(nack(1, vec![]))
    );
    assert!(handler.next_inbound(Poll::Ready(None)).is_none());
    assert!(handler.next_inbound(Poll::Ready(Some(nack(1, vec![])))).is_none());
    assert!(matches!(handler.poll(NackEvent::Woken), NackAction::PollTick));
}
