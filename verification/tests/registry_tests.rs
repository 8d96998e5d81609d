use stream_supervisor::registry::{Registry, RegistryError};

fn s(v: &str) -> String {
    v.to_string()
}

#[test]
fn fresh_tag_has_defaults() {
    let mut reg = Registry::new();
    assert!(!reg.has_tag(&s("garage")));
    assert_eq!(reg.buffer_ready(&s("garage")), None);
    assert_eq!(reg.consumer_count(&s("garage")), None);
    reg.create_tag(s("garage"));
    assert!(reg.has_tag(&s("garage")));
    assert_eq!(reg.buffer_ready(&s("garage")), Some(false));
    assert_eq!(reg.consumer_count(&s("garage")), Some(0));
    assert_eq!(reg.paths_of(&s("garage")), Some(vec![]));
}

#[test]
fn create_tag_is_idempotent() {
    let mut reg = Registry::new();
    reg.create_tag(s("cam"));
    assert!(reg.add_paths(&s("cam"), &vec![s("/cam")]).is_ok());
    reg.create_tag(s("cam"));
    // The second creation keeps the entry as it was.
    assert_eq!(reg.paths_of(&s("cam")), Some(vec![s("/cam")]));
}

#[test]
fn path_ops_fail_on_unknown_tag() {
    let mut reg = Registry::new();
    assert_eq!(
        reg.add_paths(&s("missing"), &vec![s("/x")]),
        Err(RegistryError::UnknownTag)
    );
    assert_eq!(
        reg.remove_paths(&s("missing"), &vec![s("/x")]),
        Err(RegistryError::UnknownTag)
    );
    assert_eq!(
        reg.add_permitted_roles(&s("missing"), &vec![s("admin")]),
        Err(RegistryError::UnknownTag)
    );
}

#[test]
fn paths_are_kept_once_each() {
    let mut reg = Registry::new();
    reg.create_tag(s("cam"));
    assert!(reg.add_paths(&s("cam"), &vec![s("/cam"), s("/cam/sub")]).is_ok());
    assert!(reg.add_paths(&s("cam"), &vec![s("/cam/sub"), s("/cam/alt")]).is_ok());
    assert_eq!(
        reg.paths_of(&s("cam")),
        Some(vec![s("/cam"), s("/cam/sub"), s("/cam/alt")])
    );
}

#[test]
fn remove_paths_returns_those_present() {
    let mut reg = Registry::new();
    reg.create_tag(s("cam"));
    assert!(reg.add_paths(&s("cam"), &vec![s("/a"), s("/b"), s("/c")]).is_ok());
    let removed = reg.remove_paths(&s("cam"), &vec![s("/b"), s("/nope")]).unwrap();
    assert_eq!(removed, vec![s("/b")]);
    assert_eq!(reg.paths_of(&s("cam")), Some(vec![s("/a"), s("/c")]));
}

#[test]
fn remove_tag_removes_all_paths_atomically() {
    let mut reg = Registry::new();
    reg.create_tag(s("cam"));
    reg.create_tag(s("door"));
    assert!(reg.add_paths(&s("cam"), &vec![s("/cam"), s("/cam/sub")]).is_ok());
    assert!(reg.add_paths(&s("door"), &vec![s("/door")]).is_ok());
    let removed = reg.remove_tag(&s("cam"));
    assert_eq!(removed, vec![s("/cam"), s("/cam/sub")]);
    assert!(!reg.has_tag(&s("cam")));
    // The sibling tag is untouched.
    assert!(reg.has_tag(&s("door")));
    assert_eq!(reg.paths_of(&s("door")), Some(vec![s("/door")]));
    // A second removal finds nothing.
    let removed = reg.remove_tag(&s("cam"));
    assert!(removed.is_empty());
}

#[test]
fn observed_facts_are_recorded_per_tag() {
    let mut reg = Registry::new();
    reg.create_tag(s("cam"));
    reg.create_tag(s("door"));
    assert!(reg.set_buffer_ready(&s("cam"), true));
    assert!(reg.set_consumer_count(&s("door"), 3));
    assert_eq!(reg.buffer_ready(&s("cam")), Some(true));
    assert_eq!(reg.buffer_ready(&s("door")), Some(false));
    assert_eq!(reg.consumer_count(&s("cam")), Some(0));
    assert_eq!(reg.consumer_count(&s("door")), Some(3));
    assert!(!reg.set_buffer_ready(&s("missing"), true));
    assert!(!reg.set_consumer_count(&s("missing"), 1));
}
