use gst_dots_viewer::registry::{ClientHandle, ClientRegistry, ClientType, RegistryError};

#[test]
fn a_new_registry_is_empty() {
    let registry = ClientRegistry::new();
    assert!(registry.is_empty());
    assert_eq!(registry.recipients(ClientType::Viewer), Vec::new());
    assert_eq!(registry.recipients(ClientType::Snapshot), Vec::new());
    assert_eq!(registry.role_of(ClientHandle(1)), None);
}

#[test]
fn clients_are_kept_by_role() {
    let mut registry = ClientRegistry::new();
    assert_eq!(registry.add_client(ClientHandle(1), ClientType::Viewer), Ok(()));
    assert_eq!(registry.add_client(ClientHandle(2), ClientType::Snapshot), Ok(()));
    assert_eq!(registry.add_client(ClientHandle(3), ClientType::Viewer), Ok(()));
    assert!(!registry.is_empty());
    assert_eq!(registry.recipients(ClientType::Viewer), vec![ClientHandle(1), ClientHandle(3)]);
    assert_eq!(registry.recipients(ClientType::Snapshot), vec![ClientHandle(2)]);
    assert_eq!(registry.role_of(ClientHandle(1)), Some(ClientType::Viewer));
    assert_eq!(registry.role_of(ClientHandle(2)), Some(ClientType::Snapshot));
    assert_eq!(registry.role_of(ClientHandle(4)), None);
}

#[test]
fn adding_under_the_same_role_again_changes_nothing() {
    let mut registry = ClientRegistry::new();
    assert_eq!(registry.add_client(ClientHandle(1), ClientType::Viewer), Ok(()));
    assert_eq!(registry.add_client(ClientHandle(1), ClientType::Viewer), Ok(()));
    assert_eq!(registry.recipients(ClientType::Viewer), vec![ClientHandle(1)]);
}

#[test]
fn adding_under_the_other_role_is_refused() {
    let mut registry = ClientRegistry::new();
    assert_eq!(registry.add_client(ClientHandle(1), ClientType::Viewer), Ok(()));
    assert_eq!(
        registry.add_client(ClientHandle(1), ClientType::Snapshot),
        Err(RegistryError::RoleConflict)
    );
    assert_eq!(registry.recipients(ClientType::Viewer), vec![ClientHandle(1)]);
    assert_eq!(registry.recipients(ClientType::Snapshot), Vec::new());

    assert_eq!(registry.add_client(ClientHandle(2), ClientType::Snapshot), Ok(()));
    assert_eq!(
        registry.add_client(ClientHandle(2), ClientType::Viewer),
        Err(RegistryError::RoleConflict)
    );
    assert_eq!(registry.role_of(ClientHandle(2)), Some(ClientType::Snapshot));
}

#[test]
fn removing_takes_a_client_out_of_its_role() {
    let mut registry = ClientRegistry::new();
    for id in 1..=4 {
        assert_eq!(registry.add_client(ClientHandle(id), ClientType::Viewer), Ok(()));
    }
    assert_eq!(registry.add_client(ClientHandle(9), ClientType::Snapshot), Ok(()));
    registry.remove_client(ClientHandle(2));
    assert_eq!(
        registry.recipients(ClientType::Viewer),
        vec![ClientHandle(1), ClientHandle(3), ClientHandle(4)]
    );
    registry.remove_client(ClientHandle(9));
    assert_eq!(registry.recipients(ClientType::Snapshot), Vec::new());
    assert_eq!(registry.role_of(ClientHandle(2)), None);
    assert_eq!(registry.role_of(ClientHandle(9)), None);
}

#[test]
fn removing_twice_is_removing_once() {
    let mut once = ClientRegistry::new();
    let mut twice = ClientRegistry::new();
    for registry in [&mut once, &mut twice] {
        assert_eq!(registry.add_client(ClientHandle(1), ClientType::Viewer), Ok(()));
        assert_eq!(registry.add_client(ClientHandle(2), ClientType::Viewer), Ok(()));
        assert_eq!(registry.add_client(ClientHandle(3), ClientType::Snapshot), Ok(()));
    }
    once.remove_client(ClientHandle(1));
    twice.remove_client(ClientHandle(1));
    twice.remove_client(ClientHandle(1));
    for role in [ClientType::Viewer, ClientType::Snapshot] {
        assert_eq!(once.recipients(role), twice.recipients(role));
    }
    assert_eq!(twice.recipients(ClientType::Viewer), vec![ClientHandle(2)]);
    assert_eq!(twice.recipients(ClientType::Snapshot), vec![ClientHandle(3)]);
}

#[test]
fn removing_an_absent_client_is_a_no_op() {
    let mut registry = ClientRegistry::new();
    registry.remove_client(ClientHandle(5));
    assert!(registry.is_empty());
    assert_eq!(registry.add_client(ClientHandle(1), ClientType::Snapshot), Ok(()));
    registry.remove_client(ClientHandle(5));
    assert_eq!(registry.recipients(ClientType::Snapshot), vec![ClientHandle(1)]);
}

#[test]
fn a_removed_client_may_come_back_under_the_other_role() {
    let mut registry = ClientRegistry::new();
    assert_eq!(registry.add_client(ClientHandle(1), ClientType::Viewer), Ok(()));
    registry.remove_client(ClientHandle(1));
    assert_eq!(registry.add_client(ClientHandle(1), ClientType::Snapshot), Ok(()));
    assert_eq!(registry.role_of(ClientHandle(1)), Some(ClientType::Snapshot));
}

#[test]
fn only_viewers_receive_the_catalog() {
    assert!(ClientType::Viewer.receives_catalog());
    assert!(!ClientType::Snapshot.receives_catalog());
}
