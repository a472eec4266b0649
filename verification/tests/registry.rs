use helmor::registry::{ProcessKey, ProcessRegistry};

fn key(repo: &str, kind: &str, ws: Option<&str>) -> ProcessKey {
    ProcessKey::new(repo, kind, ws)
}

#[test]
fn register_replaces_and_hands_back_old_entry() {
    let mut reg: ProcessRegistry<&str> = ProcessRegistry::new();
    assert!(reg.register(key("r", "run", Some("w1")), 10, "first").is_none());
    assert!(reg.register(key("r", "run", Some("w2")), 11, "other").is_none());
    let old = reg.register(key("r", "run", Some("w1")), 12, "second").unwrap();
    assert_eq!(old.pid, 10);
    assert_eq!(old.handle, "first");
    assert_eq!(reg.len(), 2);
    let e = reg.get(&key("r", "run", Some("w1"))).unwrap();
    assert_eq!((e.pid, e.handle), (12, "second"));
    assert_eq!(reg.entry_at(0).pid, 12);
}

#[test]
fn unregister_only_removes_matching_pid() {
    let mut reg: ProcessRegistry<u8> = ProcessRegistry::new();
    reg.register(key("r", "setup", None), 5, 1);
    reg.register(key("r", "setup", None), 6, 2);
    assert!(!reg.unregister(&key("r", "setup", None), 5));
    assert_eq!(reg.get(&key("r", "setup", None)).unwrap().pid, 6);
    assert!(reg.unregister(&key("r", "setup", None), 6));
    assert!(reg.get(&key("r", "setup", None)).is_none());
    assert!(!reg.unregister(&key("r", "setup", None), 6));
    assert_eq!(reg.len(), 0);
}

#[test]
fn register_then_unregister_restores_registry() {
    let mut reg: ProcessRegistry<u8> = ProcessRegistry::new();
    reg.register(key("a", "run", None), 1, 1);
    reg.register(key("b", "run", None), 2, 2);
    reg.register(key("c", "run", Some("x")), 3, 3);
    assert!(reg.unregister(&key("c", "run", Some("x")), 3));
    assert_eq!(reg.len(), 2);
    assert_eq!(reg.entry_at(0).pid, 1);
    assert_eq!(reg.entry_at(1).pid, 2);
}

#[test]
fn victims_in_repo_spare_kept_workspace() {
    let mut reg: ProcessRegistry<u8> = ProcessRegistry::new();
    reg.register(key("r", "run", Some("w1")), 1, 1);
    reg.register(key("r", "run", Some("w2")), 2, 2);
    reg.register(key("r", "setup", Some("w3")), 3, 3);
    reg.register(key("q", "run", Some("w4")), 4, 4);
    reg.register(key("r", "run", None), 5, 5);
    assert_eq!(reg.victims_in_repo("r", "run", Some("w1")), vec![1, 4]);
    assert_eq!(reg.victims_in_repo("r", "run", None), vec![0, 1]);
    assert_eq!(reg.victims_in_repo("r", "setup", None), vec![2]);
    assert!(reg.victims_in_repo("z", "run", None).is_empty());
}

#[test]
fn keys_compare_by_all_parts() {
    assert!(key("r", "run", Some("w")).same(&key("r", "run", Some("w"))));
    assert!(!key("r", "run", Some("w")).same(&key("r", "run", None)));
    assert!(!key("r", "run", None).same(&key("r", "setup", None)));
    assert!(key("r", "run", None).duplicate().same(&key("r", "run", None)));
    assert!(reg_position_is_found());
}

fn reg_position_is_found() -> bool {
    let mut reg: ProcessRegistry<u8> = ProcessRegistry::new();
    reg.register(key("a", "b", None), 1, 1);
    reg.position(&key("a", "b", None)) == Some(0) && reg.position(&key("a", "c", None)).is_none()
}
