use notify_server::dispatch::dispatch_event;
use notify_server::event::{ChatType, Event};
use notify_server::registry::{Registry, Subscriber};
use tokio::sync::mpsc::Receiver;

fn chat_event(workspace_id: i64, members: Vec<i64>) -> Event {
    Event::ChatUpserted {
        chat_id: 10,
        workspace_id,
        members,
        name: None,
        kind: ChatType::Single,
    }
}

fn connect(reg: &mut Registry, id: u64, user_id: i64, workspace_id: i64, cap: usize) -> Receiver<String> {
    let (tx, rx) = tokio::sync::mpsc::channel::<String>(cap);
    reg.insert(Subscriber {
        id,
        user_id,
        workspace_id,
        drops: 0,
        tx,
    })
    .expect("fresh id");
    rx
}

#[test]
fn delivers_to_exactly_the_eligible_subscribers() {
    let mut reg = Registry::new();
    let mut rx_member = connect(&mut reg, 1, 1, 3, 16);
    let mut rx_other_ws = connect(&mut reg, 2, 2, 4, 16);
    let mut rx_not_member = connect(&mut reg, 3, 9, 3, 16);

    dispatch_event(&mut reg, &chat_event(3, vec![1, 2, 7]), 3);

    let frame = rx_member.try_recv().expect("member in workspace gets the frame");
    assert!(frame.starts_with("event: chat_upserted\ndata: "));
    assert!(rx_other_ws.try_recv().is_err());
    assert!(rx_not_member.try_recv().is_err());
    assert_eq!(reg.len(), 3);
}

#[test]
fn delivered_frames_keep_dispatch_order() {
    let mut reg = Registry::new();
    let mut rx = connect(&mut reg, 1, 1, 1, 16);
    for chat_id in [100i64, 200, 300] {
        let ev = Event::ChatDeleted {
            chat_id,
            workspace_id: 1,
            members: vec![1],
        };
        dispatch_event(&mut reg, &ev, 3);
    }
    let f1 = rx.try_recv().unwrap();
    let f2 = rx.try_recv().unwrap();
    let f3 = rx.try_recv().unwrap();
    assert!(f1.contains("\"chat_id\":100"));
    assert!(f2.contains("\"chat_id\":200"));
    assert!(f3.contains("\"chat_id\":300"));
    assert!(rx.try_recv().is_err());
}

#[test]
fn closed_channel_evicts_the_subscriber() {
    let mut reg = Registry::new();
    let rx = connect(&mut reg, 1, 1, 1, 16);
    let _rx_live = connect(&mut reg, 2, 2, 1, 16);
    drop(rx);
    dispatch_event(&mut reg, &chat_event(1, vec![1, 2]), 3);
    assert_eq!(reg.len(), 1);
    assert!(!reg.contains(1));
    assert!(reg.contains(2));
}

#[test]
fn slow_subscriber_is_evicted_at_the_drop_threshold() {
    let mut reg = Registry::new();
    let _rx_slow = connect(&mut reg, 1, 1, 1, 1);
    let ev = chat_event(1, vec![1]);
    dispatch_event(&mut reg, &ev, 3); // delivered, channel now full
    dispatch_event(&mut reg, &ev, 3); // drop 1
    assert!(reg.contains(1));
    dispatch_event(&mut reg, &ev, 3); // drop 2
    assert!(reg.contains(1));
    dispatch_event(&mut reg, &ev, 3); // drop 3: evicted
    assert!(!reg.contains(1));
    assert_eq!(reg.len(), 0);
}

#[test]
fn backpressure_on_one_subscriber_leaves_peers_alone() {
    let mut reg = Registry::new();
    let _rx_slow = connect(&mut reg, 1, 1, 1, 1);
    let mut rx_fast = connect(&mut reg, 2, 2, 1, 64);
    let ev = chat_event(1, vec![1, 2]);
    for _ in 0..10 {
        dispatch_event(&mut reg, &ev, 3);
    }
    let mut fast_got = 0;
    while rx_fast.try_recv().is_ok() {
        fast_got += 1;
    }
    assert_eq!(fast_got, 10);
}
