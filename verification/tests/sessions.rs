use zeroclaw::sessions::{active_sessions_for, register_session, SessionRegistry};

#[test]
fn register_session_increments_and_drop_decrements() {
    let mut registry = SessionRegistry::new();
    let alias = "session_registry_alpha";
    assert_eq!(active_sessions_for(&registry, alias), 0);
    {
        let g = register_session(&mut registry, alias.to_string());
        assert_eq!(active_sessions_for(&registry, alias), 1);
        g.release(&mut registry);
    }
    assert_eq!(
        active_sessions_for(&registry, alias),
        0,
        "drop must decrement back to zero"
    );
}

#[test]
fn nested_sessions_are_counted() {
    let mut registry = SessionRegistry::new();
    let alias = "session_registry_beta";
    assert_eq!(active_sessions_for(&registry, alias), 0);
    let g1 = register_session(&mut registry, alias.to_string());
    let g2 = register_session(&mut registry, alias.to_string());
    assert_eq!(active_sessions_for(&registry, alias), 2);
    g1.release(&mut registry);
    assert_eq!(active_sessions_for(&registry, alias), 1);
    g2.release(&mut registry);
    assert_eq!(active_sessions_for(&registry, alias), 0);
}

#[test]
fn unknown_alias_returns_zero() {
    let registry = SessionRegistry::new();
    assert_eq!(active_sessions_for(&registry, "session_registry_unknown_gamma"), 0);
}

#[test]
fn agents_are_counted_apart() {
    let mut registry = SessionRegistry::new();
    let a = register_session(&mut registry, "a".to_string());
    let b1 = register_session(&mut registry, "b".to_string());
    let b2 = register_session(&mut registry, "b".to_string());
    assert_eq!(active_sessions_for(&registry, "a"), 1);
    assert_eq!(active_sessions_for(&registry, "b"), 2);
    b1.release(&mut registry);
    assert_eq!(active_sessions_for(&registry, "a"), 1);
    assert_eq!(active_sessions_for(&registry, "b"), 1);
    a.release(&mut registry);
    assert_eq!(active_sessions_for(&registry, "a"), 0);
    assert_eq!(active_sessions_for(&registry, "b"), 1);
    b2.release(&mut registry);
    assert_eq!(active_sessions_for(&registry, "b"), 0);
}

#[test]
fn release_into_an_empty_registry_changes_nothing() {
    let mut registry = SessionRegistry::new();
    let g = register_session(&mut registry, "a".to_string());
    let mut other = SessionRegistry::new();
    g.release(&mut other);
    assert_eq!(active_sessions_for(&other, "a"), 0);
    assert_eq!(active_sessions_for(&registry, "a"), 1);
}

#[test]
fn sessions_end_in_any_order() {
    let mut registry = SessionRegistry::new();
    let a1 = register_session(&mut registry, "a".to_string());
    let b = register_session(&mut registry, "b".to_string());
    let a2 = register_session(&mut registry, "a".to_string());
    a2.release(&mut registry);
    b.release(&mut registry);
    a1.release(&mut registry);
    assert_eq!(active_sessions_for(&registry, "a"), 0);
    assert_eq!(active_sessions_for(&registry, "b"), 0);
}
