use moq_rs::relay::client::ClientManager;
use uuid::Uuid;

#[test]
fn registered_ids_are_version_4_uuids() {
    let mut manager = ClientManager::new();
    let id = manager.register();
    assert_eq!(Uuid::from_u128(id).get_version_num(), 4);
}

#[test]
fn many_registrations_are_distinct() {
    let mut manager = ClientManager::new();
    let mut ids = Vec::new();
    for _ in 0..50 {
        let id = manager.register();
        assert!(!ids.contains(&id));
        ids.push(id);
    }
    assert_eq!(manager.len(), 50);
    manager.remove(ids[10]);
    assert_eq!(manager.len(), 49);
    assert!(!manager.contains(ids[10]));
    manager.remove(ids[10]);
    assert_eq!(manager.len(), 49);
}

#[test]
fn remove_undoes_register() {
    let mut manager = ClientManager::new();
    let first = manager.register();
    let second = manager.register();
    manager.remove(second);
    assert_eq!(manager.len(), 1);
    assert!(manager.contains(first));
    manager.remove(first);
    assert!(manager.is_empty());
}

#[test]
fn default_manager_is_empty() {
    let mut manager = ClientManager::default();
    assert!(manager.is_empty());
    assert_eq!(manager.register_candidate(9), 9);
    assert_eq!(manager.register_candidate(9), 0);
    assert_eq!(manager.len(), 2);
}
