use dbd::state::Registry;
use dbd::Settings;
use dbd::State;

fn settings() -> Settings {
    Settings { api_keys: Vec::new(), port: 1, address: "a".to_string(), connections: Vec::new() }
}

#[test]
fn handle_is_claimed_once() {
    let mut registry: Registry<&str> = Registry::new();
    assert_eq!(registry.len(), 0);
    assert_eq!(registry.insert(7, "seven"), None);
    assert_eq!(registry.insert(8, "eight"), None);
    assert!(registry.contains(7));
    assert_eq!(registry.remove(7), Some("seven"));
    assert_eq!(registry.remove(7), None);
    assert!(!registry.contains(7));
    assert_eq!(registry.len(), 1);
    assert_eq!(registry.remove(9), None);
    assert_eq!(registry.remove(8), Some("eight"));
    assert_eq!(registry.len(), 0);
}

#[test]
fn insert_under_a_kept_identifier_replaces() {
    let mut registry: Registry<u32> = Registry::new();
    registry.insert(1, 10);
    registry.insert(2, 20);
    assert_eq!(registry.insert(1, 11), Some(10));
    assert_eq!(registry.len(), 2);
    assert_eq!(registry.remove(1), Some(11));
    assert_eq!(registry.remove(2), Some(20));
}

#[test]
fn new_state_keeps_nothing() {
    let state: State<u8, u8, u8> = State::new(settings());
    assert_eq!(state.settings, settings());
    assert_eq!(state.commands.len(), 0);
    assert_eq!(state.stdouts.len(), 0);
    assert_eq!(state.stderrs.len(), 0);
}

#[test]
fn purge_drops_what_was_not_claimed() {
    let id = 0x1234_5678_9abc_def0_1234_5678_9abc_def0u128;
    let mut state: State<&str, &str, &str> = State::new(settings());
    state.register(id, "child", "out", "err");
    state.register(id + 1, "child2", "out2", "err2");
    assert_eq!(state.stdouts.remove(id), Some("out"));
    assert_eq!(state.stdouts.remove(id), None);
    state.purge(id);
    assert_eq!(state.commands.remove(id), None);
    assert_eq!(state.stderrs.remove(id), None);
    assert_eq!(state.commands.remove(id + 1), Some("child2"));
    assert_eq!(state.stderrs.remove(id + 1), Some("err2"));
    assert_eq!(state.stdouts.remove(id + 1), Some("out2"));
}
