use notify_server::event::{ChatType, Event};
use notify_server::fanout::Fanout;
use notify_server::frame::render_frame;

fn chat_event(chat_id: i64, workspace_id: i64, members: Vec<i64>) -> Event {
    Event::ChatUpserted {
        chat_id,
        workspace_id,
        members,
        name: None,
        kind: ChatType::Group,
    }
}

#[test]
fn eligibility_selects_exactly_the_matching_pairs() {
    let mut hub = Fanout::new(16, 3);
    // the cross product of user ids and workspaces around members {1,2,7}, ws 3
    hub.subscribe(1, 1, 3).unwrap();
    hub.subscribe(2, 2, 3).unwrap();
    hub.subscribe(3, 7, 3).unwrap();
    hub.subscribe(4, 3, 3).unwrap(); // in workspace, not a member
    hub.subscribe(5, 1, 2).unwrap(); // member, other workspace
    hub.subscribe(6, 7, 4).unwrap(); // member, other workspace
    hub.publish(&chat_event(10, 3, vec![1, 2, 7]));
    assert!(hub.take_next(1).is_some());
    assert!(hub.take_next(2).is_some());
    assert!(hub.take_next(3).is_some());
    assert!(hub.take_next(4).is_none());
    assert!(hub.take_next(5).is_none());
    assert!(hub.take_next(6).is_none());
}

#[test]
fn delivered_frames_arrive_in_publish_order() {
    let mut hub = Fanout::new(16, 3);
    hub.subscribe(1, 1, 1).unwrap();
    let events: Vec<Event> = (0..5).map(|n| chat_event(n, 1, vec![1])).collect();
    for ev in &events {
        hub.publish(ev);
    }
    for ev in &events {
        assert_eq!(hub.take_next(1).unwrap(), render_frame(ev));
    }
    assert!(hub.take_next(1).is_none());
}

#[test]
fn message_event_reaches_both_members_and_no_one_else() {
    let mut hub = Fanout::new(16, 3);
    hub.subscribe(1, 1, 1).unwrap();
    hub.subscribe(2, 2, 1).unwrap();
    hub.subscribe(3, 3, 1).unwrap(); // same workspace, not a member
    let ev = Event::MessageCreated {
        message_id: 42,
        chat_id: 10,
        workspace_id: 1,
        sender_id: 1,
        members: vec![1, 2],
        created_at: 1700000000,
    };
    hub.publish(&ev);
    let f1 = hub.take_next(1).unwrap();
    let f2 = hub.take_next(2).unwrap();
    assert!(f1.contains("\"type\":\"message_created\""));
    assert!(f1.contains("\"message_id\":42"));
    assert_eq!(f1, f2);
    assert!(hub.take_next(3).is_none());
}

#[test]
fn slow_subscriber_fills_drops_and_is_evicted() {
    // capacity 16, threshold 3: a subscriber that stops reading queues 16
    // frames, suffers drops on the next two events, and is evicted on the
    // third consecutive drop; a reading peer is untouched.
    let mut hub = Fanout::new(16, 3);
    hub.subscribe(1, 1, 1).unwrap(); // never reads
    hub.subscribe(2, 2, 1).unwrap(); // reads after every event
    let mut peer_got = 0;
    for n in 0..19 {
        hub.publish(&chat_event(n, 1, vec![1, 2]));
        if hub.take_next(2).is_some() {
            peer_got += 1;
        }
        if n < 18 {
            assert_eq!(hub.len(), 2, "still registered after event {}", n);
        }
    }
    assert_eq!(hub.len(), 1, "slow subscriber evicted on the third drop");
    assert_eq!(peer_got, 19, "peer received every event");
    // the 16 queued frames were the first 16 events, in order
    assert!(hub.take_next(2).is_none());
}

#[test]
fn interleaved_connects_and_disconnects_leave_nothing_behind() {
    let mut hub = Fanout::new(16, 3);
    for n in 0..100u64 {
        hub.subscribe(n, n as i64, 1).unwrap();
    }
    // disconnect in a scattered order
    for n in (0..100u64).step_by(2) {
        assert!(hub.unsubscribe(n));
    }
    for n in (1..100usize).step_by(2).rev() {
        assert!(hub.unsubscribe(n as u64));
    }
    assert_eq!(hub.len(), 0);
    // nothing from before a disconnect is delivered afterwards
    assert!(hub.take_next(17).is_none());
}

#[test]
fn shutdown_unregisters_every_subscriber() {
    let mut hub = Fanout::new(16, 3);
    for n in 0..50u64 {
        hub.subscribe(n, n as i64, 1).unwrap();
    }
    assert_eq!(hub.len(), 50);
    for n in 0..50u64 {
        assert!(hub.unsubscribe(n));
    }
    assert_eq!(hub.len(), 0);
}

#[test]
fn duplicate_subscriber_id_is_refused_until_freed() {
    let mut hub = Fanout::new(16, 3);
    hub.subscribe(1, 1, 1).unwrap();
    assert!(hub.subscribe(1, 2, 2).is_err());
    assert!(hub.unsubscribe(1));
    assert!(hub.subscribe(1, 2, 2).is_ok());
}
