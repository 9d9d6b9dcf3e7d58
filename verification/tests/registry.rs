use sse_client::registry::{disconnect, ClientState, NO_CONNECTION};

#[test]
fn fresh_registry_has_nothing_issued_and_nothing_active() {
    let state = ClientState::new();
    assert_eq!(state.last_issued(), 0);
    assert_eq!(state.active(), NO_CONNECTION);
    assert!(state.can_issue());
    assert!(!state.is_current(1));
}

#[test]
fn default_registry_is_a_fresh_one() {
    let state = ClientState::default();
    assert_eq!(state.last_issued(), 0);
    assert_eq!(state.active(), 0);
}

#[test]
fn first_identity_is_one() {
    let mut state = ClientState::new();
    assert_eq!(state.begin_connection(), 1);
    assert_eq!(state.last_issued(), 1);
    assert_eq!(state.active(), 1);
    assert!(state.is_current(1));
}

#[test]
fn sequential_connections_get_strictly_increasing_identities() {
    let mut state = ClientState::new();
    let mut previous = 0;
    for expected in 1..=50u64 {
        let id = state.begin_connection();
        assert_eq!(id, expected);
        assert!(id > previous);
        previous = id;
    }
    assert_eq!(state.last_issued(), 50);
}

#[test]
fn only_the_newest_identity_is_active() {
    let mut state = ClientState::new();
    let first = state.begin_connection();
    let second = state.begin_connection();
    let third = state.begin_connection();
    assert!(!state.is_current(first));
    assert!(!state.is_current(second));
    assert!(state.is_current(third));
    assert_eq!(state.active(), third);
}

#[test]
fn invalidate_leaves_no_connection_current() {
    let mut state = ClientState::new();
    let id = state.begin_connection();
    state.invalidate();
    assert!(!state.is_current(id));
    assert_eq!(state.active(), NO_CONNECTION);
    assert_eq!(state.last_issued(), id);
}

#[test]
fn invalidate_is_idempotent_and_works_with_nothing_active() {
    let mut state = ClientState::new();
    state.invalidate();
    assert_eq!(state.active(), 0);
    assert_eq!(state.last_issued(), 0);
    let id = state.begin_connection();
    state.invalidate();
    state.invalidate();
    assert_eq!(state.active(), 0);
    assert_eq!(state.last_issued(), id);
}

#[test]
fn identities_keep_increasing_across_invalidations() {
    let mut state = ClientState::new();
    let first = state.begin_connection();
    state.invalidate();
    let second = state.begin_connection();
    state.invalidate();
    let third = state.begin_connection();
    assert_eq!((first, second, third), (1, 2, 3));
    assert!(state.is_current(third));
    assert!(!state.is_current(first));
}

#[test]
fn is_current_compares_with_the_active_identity() {
    let mut state = ClientState::new();
    assert!(state.is_current(NO_CONNECTION));
    let id = state.begin_connection();
    assert!(!state.is_current(NO_CONNECTION));
    assert!(state.is_current(id));
    assert!(!state.is_current(id + 1));
}

#[test]
fn disconnect_always_succeeds() {
    let mut state = ClientState::new();
    assert_eq!(disconnect(&mut state), Ok(()));
    let id = state.begin_connection();
    assert_eq!(disconnect(&mut state), Ok(()));
    assert!(!state.is_current(id));
    assert_eq!(disconnect(&mut state), Ok(()));
    assert_eq!(state.active(), 0);
}
