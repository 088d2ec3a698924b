use vox_verse::ids::{id_before, same_id};
use vox_verse::server_mngr::{RegistryError, RouteError, ServerMngr};

fn s(x: &str) -> String {
    x.to_string()
}

#[test]
fn load_balancing_across_two_workers() {
    let mut reg: ServerMngr<u32, u32> = ServerMngr::new();
    assert_eq!(reg.register_server(s("w1"), 1), Ok(()));
    assert_eq!(reg.register_server(s("w2"), 2), Ok(()));
    for c in ["c1", "c2", "c3"] {
        assert_eq!(reg.register_client(s(c), 0), Ok(()));
    }
    assert_eq!(reg.assign_server_to_client("c1"), Some(s("w1")));
    assert_eq!(reg.assign_server_to_client("c2"), Some(s("w2")));
    assert_eq!(reg.assign_server_to_client("c3"), Some(s("w1")));
    assert_eq!(reg.connected_users("w1"), Some(2));
    assert_eq!(reg.connected_users("w2"), Some(1));
    assert_eq!(reg.get_client_server("c1"), Some(s("w1")));
    assert_eq!(reg.get_client_server("c2"), Some(s("w2")));
    assert_eq!(reg.get_client_server("c3"), Some(s("w1")));
}

#[test]
fn select_server_prefers_fewest_users_then_smaller_id() {
    let mut reg: ServerMngr<u32, u32> = ServerMngr::new();
    assert_eq!(reg.select_server(), None);
    reg.register_server(s("wb"), 0).unwrap();
    reg.register_server(s("wa"), 0).unwrap();
    assert_eq!(reg.select_server(), Some(s("wa")));
    reg.register_client(s("c1"), 0).unwrap();
    assert_eq!(reg.assign_server_to_client("c1"), Some(s("wa")));
    assert_eq!(reg.select_server(), Some(s("wb")));
}

#[test]
fn assign_without_worker_or_client() {
    let mut reg: ServerMngr<u32, u32> = ServerMngr::new();
    reg.register_client(s("c1"), 0).unwrap();
    assert_eq!(reg.assign_server_to_client("c1"), None);
    assert_eq!(reg.get_client_server("c1"), None);
    reg.register_server(s("w1"), 0).unwrap();
    assert_eq!(reg.assign_server_to_client("nobody"), None);
    assert_eq!(reg.connected_users("w1"), Some(0));
}

#[test]
fn a_bound_client_is_not_assigned_again() {
    let mut reg: ServerMngr<u32, u32> = ServerMngr::new();
    reg.register_server(s("w1"), 0).unwrap();
    reg.register_client(s("c1"), 0).unwrap();
    assert_eq!(reg.assign_server_to_client("c1"), Some(s("w1")));
    reg.register_server(s("w0"), 0).unwrap();
    assert_eq!(reg.assign_server_to_client("c1"), None);
    assert_eq!(reg.get_client_server("c1"), Some(s("w1")));
    assert_eq!(reg.connected_users("w1"), Some(1));
    assert_eq!(reg.connected_users("w0"), Some(0));
}

#[test]
fn worker_drop_cascade() {
    let mut reg: ServerMngr<u32, u32> = ServerMngr::new();
    reg.register_server(s("w1"), 7).unwrap();
    reg.register_client(s("c1"), 1).unwrap();
    reg.register_client(s("c2"), 2).unwrap();
    reg.assign_server_to_client("c1");
    reg.assign_server_to_client("c2");
    let orphans = reg.remove_server("w1");
    assert_eq!(orphans, vec![s("c1"), s("c2")]);
    assert_eq!(reg.worker_count(), 0);
    assert_eq!(reg.client_count(), 2);
    assert_eq!(reg.get_client_server("c1"), None);
    assert_eq!(reg.get_client_server("c2"), None);
    assert_eq!(reg.forward_to_server("w1"), Err(RouteError::NoSuchWorker));
    assert_eq!(reg.forward_to_client("c1"), Ok(&1));
    assert_eq!(reg.forward_to_server_by_client("c1"), Err(RouteError::Unassigned));
}

#[test]
fn registering_twice_is_refused_and_changes_nothing() {
    let mut reg: ServerMngr<u32, u32> = ServerMngr::new();
    assert_eq!(reg.register_client(s("c1"), 1), Ok(()));
    assert_eq!(reg.register_client(s("c1"), 9), Err(RegistryError::Duplicate));
    assert_eq!(reg.client_count(), 1);
    assert_eq!(reg.forward_to_client("c1"), Ok(&1));
    assert_eq!(reg.register_server(s("w1"), 1), Ok(()));
    assert_eq!(reg.register_server(s("w1"), 9), Err(RegistryError::Duplicate));
    assert_eq!(reg.worker_count(), 1);
    assert_eq!(reg.forward_to_server("w1"), Ok(&1));
}

#[test]
fn removing_unknown_ids_changes_nothing() {
    let mut reg: ServerMngr<u32, u32> = ServerMngr::new();
    reg.register_server(s("w1"), 0).unwrap();
    reg.register_client(s("c1"), 0).unwrap();
    reg.assign_server_to_client("c1");
    reg.remove_client("ghost");
    assert_eq!(reg.remove_server("ghost"), Vec::<String>::new());
    assert_eq!(reg.worker_count(), 1);
    assert_eq!(reg.client_count(), 1);
    assert_eq!(reg.connected_users("w1"), Some(1));
    assert_eq!(reg.get_client_server("c1"), Some(s("w1")));
}

#[test]
fn removing_a_client_frees_its_place() {
    let mut reg: ServerMngr<u32, u32> = ServerMngr::new();
    reg.register_server(s("w1"), 3).unwrap();
    reg.register_client(s("c1"), 0).unwrap();
    reg.register_client(s("c2"), 0).unwrap();
    reg.assign_server_to_client("c1");
    reg.assign_server_to_client("c2");
    reg.remove_client("c1");
    assert_eq!(reg.connected_users("w1"), Some(1));
    assert_eq!(reg.client_count(), 1);
    assert_eq!(reg.forward_to_client("c1"), Err(RouteError::NoSuchClient));
    assert_eq!(reg.forward_to_server_by_client("c2"), Ok(&3));
    assert_eq!(reg.forward_to_server_by_client("c1"), Err(RouteError::NoSuchClient));
    assert_eq!(reg.remove_server("w1"), vec![s("c2")]);
}

#[test]
fn binding_and_lists_agree_after_a_sequence() {
    let mut reg: ServerMngr<u32, u32> = ServerMngr::new();
    reg.register_server(s("w1"), 0).unwrap();
    reg.register_server(s("w2"), 0).unwrap();
    for c in ["a", "b", "c", "d"] {
        reg.register_client(s(c), 0).unwrap();
        reg.assign_server_to_client(c);
    }
    reg.remove_client("b");
    let left = reg.remove_server("w1");
    assert_eq!(left, vec![s("a"), s("c")]);
    assert_eq!(reg.get_client_server("d"), Some(s("w2")));
    assert_eq!(reg.connected_users("w2"), Some(1));
    assert_eq!(reg.remove_server("w2"), vec![s("d")]);
}

#[test]
fn ids_compare_as_strings() {
    assert!(same_id("w1", "w1"));
    assert!(!same_id("w1", "w10"));
    assert!(id_before("w1", "w10"));
    assert!(id_before("w1", "w2"));
    assert!(!id_before("w2", "w10"));
    assert!(!id_before("w1", "w1"));
    assert!(id_before("", "a"));
    assert!(id_before("é", "ê"));
}
