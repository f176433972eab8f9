use lynx_runner::error::ServiceError;
use lynx_runner::registry::SessionRegistry;

#[test]
fn new_registry_has_no_sessions() {
    let registry: SessionRegistry<u32> = SessionRegistry::new();
    assert!(!registry.contains("alice"));
    assert_eq!(registry.session("alice"), Err(ServiceError::NoSession));
}

#[test]
fn create_then_session_finds_the_handle() {
    let mut registry: SessionRegistry<u32> = SessionRegistry::new();
    assert_eq!(registry.create("alice".to_string(), 7), Ok(()));
    assert!(registry.contains("alice"));
    assert_eq!(registry.session("alice"), Ok(&7));
    assert_eq!(registry.with_session("alice", |handle| *handle + 1), Ok(8));
}

#[test]
fn second_create_is_rejected_and_keeps_the_first_handle() {
    let mut registry: SessionRegistry<u32> = SessionRegistry::new();
    assert_eq!(registry.create("alice".to_string(), 7), Ok(()));
    assert_eq!(
        registry.create("alice".to_string(), 8),
        Err((ServiceError::SessionExists, 8))
    );
    assert_eq!(registry.session("alice"), Ok(&7));
}

#[test]
fn sessions_of_distinct_users_are_independent() {
    let mut registry: SessionRegistry<String> = SessionRegistry::new();
    assert!(registry.create("alice".to_string(), "a".to_string()).is_ok());
    assert!(registry.create("bob".to_string(), "b".to_string()).is_ok());
    assert!(registry.create("".to_string(), "nobody".to_string()).is_ok());
    assert_eq!(registry.session("alice"), Ok(&"a".to_string()));
    assert_eq!(registry.session("bob"), Ok(&"b".to_string()));
    assert_eq!(registry.session(""), Ok(&"nobody".to_string()));
    assert_eq!(registry.session("alic"), Err(ServiceError::NoSession));
    assert_eq!(registry.session("Alice"), Err(ServiceError::NoSession));
}

#[test]
fn with_session_runs_nothing_without_a_session() {
    let registry: SessionRegistry<u32> = SessionRegistry::new();
    let mut ran = false;
    let outcome = registry.with_session("ghost", |_| {
        ran = true;
    });
    assert_eq!(outcome, Err(ServiceError::NoSession));
    assert!(!ran);
}

#[test]
fn remove_hands_out_the_handle_and_ends_the_session() {
    let mut registry: SessionRegistry<u32> = SessionRegistry::new();
    registry.create("alice".to_string(), 1).unwrap();
    registry.create("bob".to_string(), 2).unwrap();
    registry.create("carol".to_string(), 3).unwrap();
    assert_eq!(registry.remove("bob"), Some(2));
    assert_eq!(registry.remove("bob"), None);
    assert_eq!(registry.session("bob"), Err(ServiceError::NoSession));
    assert_eq!(registry.session("alice"), Ok(&1));
    assert_eq!(registry.session("carol"), Ok(&3));
    assert_eq!(registry.create("bob".to_string(), 4), Ok(()));
    assert_eq!(registry.session("bob"), Ok(&4));
}

#[test]
fn remove_of_an_unknown_user_changes_nothing() {
    let mut registry: SessionRegistry<u32> = SessionRegistry::new();
    registry.create("alice".to_string(), 1).unwrap();
    assert_eq!(registry.remove("bob"), None);
    assert_eq!(registry.session("alice"), Ok(&1));
}

#[test]
fn replace_hands_out_the_displaced_handle() {
    let mut registry: SessionRegistry<u32> = SessionRegistry::new();
    assert_eq!(registry.replace("alice".to_string(), 1), None);
    registry.create("bob".to_string(), 5).unwrap();
    assert_eq!(registry.replace("alice".to_string(), 2), Some(1));
    assert_eq!(registry.session("alice"), Ok(&2));
    assert_eq!(registry.session("bob"), Ok(&5));
}

#[test]
fn len_counts_the_sessions() {
    let mut registry: SessionRegistry<u32> = SessionRegistry::new();
    assert_eq!(registry.len(), 0);
    registry.create("alice".to_string(), 1).unwrap();
    registry.create("bob".to_string(), 2).unwrap();
    assert_eq!(registry.len(), 2);
    assert!(registry.create("bob".to_string(), 3).is_err());
    assert_eq!(registry.len(), 2);
    registry.replace("bob".to_string(), 4);
    assert_eq!(registry.len(), 2);
    registry.remove("alice");
    assert_eq!(registry.len(), 1);
}

#[test]
fn drain_hands_out_every_handle_once_and_empties_the_registry() {
    let mut registry: SessionRegistry<u32> = SessionRegistry::new();
    registry.create("alice".to_string(), 1).unwrap();
    registry.create("bob".to_string(), 2).unwrap();
    registry.create("carol".to_string(), 3).unwrap();
    let mut handles = registry.drain();
    handles.sort();
    assert_eq!(handles, vec![1, 2, 3]);
    assert_eq!(registry.len(), 0);
    assert!(!registry.contains("alice"));
    assert_eq!(registry.drain(), Vec::<u32>::new());
    assert_eq!(registry.create("alice".to_string(), 9), Ok(()));
}
