use notify_server::registry::{Registry, RegistryError, Subscriber};
use notify_server::session::{allocate_id, subscriber_id_string};

fn sub(id: u64, user_id: i64, workspace_id: i64) -> Subscriber {
    let (tx, _rx) = tokio::sync::mpsc::channel::<String>(16);
    Subscriber {
        id,
        user_id,
        workspace_id,
        drops: 0,
        tx,
    }
}

#[test]
fn insert_remove_and_len() {
    let mut reg = Registry::new();
    assert_eq!(reg.len(), 0);
    assert!(reg.insert(sub(1, 10, 1)).is_ok());
    assert!(reg.insert(sub(2, 11, 1)).is_ok());
    assert_eq!(reg.len(), 2);
    assert!(reg.contains(1));
    assert!(!reg.contains(3));
    assert!(reg.remove(1));
    assert_eq!(reg.len(), 1);
    assert!(!reg.contains(1));
}

#[test]
fn duplicate_insert_is_refused() {
    let mut reg = Registry::new();
    assert!(reg.insert(sub(7, 1, 1)).is_ok());
    assert_eq!(reg.insert(sub(7, 2, 2)), Err(RegistryError::Duplicate));
    assert_eq!(reg.len(), 1);
}

#[test]
fn remove_is_idempotent() {
    let mut reg = Registry::new();
    assert!(reg.insert(sub(5, 1, 1)).is_ok());
    assert!(reg.remove(5));
    assert!(!reg.remove(5));
    assert!(!reg.remove(6));
    assert_eq!(reg.len(), 0);
}

#[test]
fn sequential_sessions_restore_len() {
    let mut reg = Registry::new();
    assert!(reg.insert(sub(1000, 0, 0)).is_ok());
    let initial = reg.len();
    for n in 0..50u64 {
        assert!(reg.insert(sub(n, n as i64, 1)).is_ok());
        assert!(reg.remove(n));
        assert_eq!(reg.len(), initial);
    }
    assert_eq!(reg.len(), initial);
}

#[test]
fn snapshot_lists_routing_identities() {
    let mut reg = Registry::new();
    assert!(reg.insert(sub(1, 10, 100)).is_ok());
    assert!(reg.insert(sub(2, 20, 200)).is_ok());
    let snap = reg.snapshot();
    assert_eq!(snap, vec![(1, 10, 100), (2, 20, 200)]);
}

#[test]
fn clear_empties_the_registry() {
    let mut reg = Registry::new();
    for n in 0..50u64 {
        assert!(reg.insert(sub(n, n as i64, 1)).is_ok());
    }
    assert_eq!(reg.len(), 50);
    reg.clear();
    assert_eq!(reg.len(), 0);
}

#[test]
fn allocate_id_skips_taken_seeds() {
    let mut reg = Registry::new();
    assert!(reg.insert(sub(1, 1, 1)).is_ok());
    assert!(reg.insert(sub(2, 2, 1)).is_ok());
    assert_eq!(allocate_id(&reg, &vec![1, 2, 3, 4]), Some(3));
    assert_eq!(allocate_id(&reg, &vec![1, 2]), None);
    assert_eq!(allocate_id(&reg, &vec![9]), Some(9));
}

#[test]
fn subscriber_ids_render_in_hex() {
    assert_eq!(subscriber_id_string(0), "0");
    assert_eq!(subscriber_id_string(255), "ff");
    assert_eq!(subscriber_id_string(0xdeadbeef), "deadbeef");
    assert_eq!(subscriber_id_string(u64::MAX), "ffffffffffffffff");
}
