use russenger::action::{next_instruction, Action, ActionLock, ActionRegistry, Named};
use russenger::data::{Data, Page};

#[test]
fn lock_then_lock_is_true_then_false() {
    let mut lock = ActionLock::new();
    assert!(lock.lock("alice"));
    assert!(!lock.lock("alice"));
    assert!(!lock.lock("alice"));
}

#[test]
fn lock_of_one_user_leaves_the_others_free() {
    let mut lock = ActionLock::new();
    assert!(lock.lock("alice"));
    assert!(lock.lock("bob"));
    assert!(!lock.lock("alice"));
    lock.unlock("bob");
    assert!(!lock.lock("alice"));
    assert!(lock.lock("bob"));
}

#[test]
fn unlock_makes_the_user_free_again() {
    let mut lock = ActionLock::new();
    for _ in 0..5 {
        assert!(!lock.is_locked("alice"));
        assert!(lock.lock("alice"));
        assert!(lock.is_locked("alice"));
        lock.unlock("alice");
    }
    assert!(lock.lock("alice"));
}

#[test]
fn unlock_of_a_free_user_changes_nothing() {
    let mut lock = ActionLock::new();
    lock.unlock("alice");
    assert!(!lock.is_locked("alice"));
    assert!(lock.lock("bob"));
    lock.unlock("alice");
    assert!(lock.is_locked("bob"));
    assert!(lock.lock("alice"));
}

#[test]
fn unlock_after_a_refused_lock_frees_the_user() {
    let mut lock = ActionLock::new();
    assert!(lock.lock("alice"));
    assert!(!lock.lock("alice"));
    lock.unlock("alice");
    assert!(lock.lock("alice"));
}

#[test]
fn registry_finds_what_was_registered() {
    let mut registry: ActionRegistry<u32> = ActionRegistry::new();
    assert!(registry.register("Main".to_string(), 1).is_ok());
    assert!(registry.register("Option1".to_string(), 2).is_ok());
    assert!(registry.contains("Main"));
    assert!(!registry.contains("Option2"));
    assert_eq!(registry.resolve("Main"), Some(&1));
    assert_eq!(registry.resolve("Option1"), Some(&2));
    assert_eq!(registry.resolve("Option2"), None);
    assert_eq!(registry.resolve(""), None);
}

#[test]
fn registry_refuses_a_path_twice() {
    let mut registry: ActionRegistry<u32> = ActionRegistry::new();
    assert!(registry.register("Main".to_string(), 1).is_ok());
    assert!(registry.register("Main".to_string(), 2).is_err());
    assert_eq!(registry.resolve("Main"), Some(&1));
}

#[test]
fn resolve_or_root_falls_back_to_the_root_action() {
    let mut registry: ActionRegistry<u32> = ActionRegistry::new();
    assert_eq!(registry.resolve_or_root("Option1"), None);
    assert_eq!(registry.resolve_or_root("Main"), None);
    registry.register("Option1".to_string(), 2).unwrap();
    assert_eq!(registry.resolve_or_root("Option1"), Some(&2));
    assert_eq!(registry.resolve_or_root("Option2"), None);
    registry.register("Main".to_string(), 1).unwrap();
    assert_eq!(registry.resolve_or_root("Option1"), Some(&2));
    assert_eq!(registry.resolve_or_root("Option2"), Some(&1));
    assert_eq!(registry.resolve_or_root("Main"), Some(&1));
}

#[test]
fn named_action_keeps_its_path() {
    let named = Named::new("Greet", 7);
    assert_eq!(named.path(), "Greet");
    assert_eq!(named.path, "Greet");
    assert_eq!(named.action, 7);
}

#[test]
fn register_action_uses_the_path_of_the_action() {
    let mut registry: ActionRegistry<Named<u8>> = ActionRegistry::new();
    assert!(registry.register_action(Named::new("Greet", 1)).is_ok());
    assert!(registry.contains("Greet"));
    assert!(!registry.contains("Main"));
    assert!(registry.register_action(Named::new("Main", 2)).is_ok());
    assert!(registry.register_action(Named::new("Greet", 3)).is_err());
    assert_eq!(registry.resolve("Greet").map(|named| named.action), Some(1));
    assert_eq!(registry.resolve("Main").map(|named| named.action), Some(2));
}

#[test]
fn action_next_points_at_the_next_window() {
    let action = Named::new("A", ());
    let payload = action.next(&Data::new("x", Some(Page(0, 10))));
    assert_eq!(payload.get_path(), "A");
    assert_eq!(payload.get_data().get_value(), "x");
    assert_eq!(payload.get_data().get_page(), Some(Page(10, 10)));
    assert_eq!(
        payload.to_string(),
        "{\"path\":\"A\",\"data\":{\"value\":\"\\\"x\\\"\",\"page\":[10,10]}}"
    );
}

#[test]
fn action_next_starts_from_the_default_window() {
    let action = Named::new("A", ());
    let payload = action.next(&Data::new("x", None));
    assert_eq!(payload.get_path(), "A");
    assert_eq!(payload.get_data().get_value(), "x");
    assert_eq!(payload.get_data().get_page(), Some(Page(10, 10)));
}

#[test]
fn next_instruction_moves_the_window_and_keeps_the_value() {
    let data = Data::new("dogs", Some(Page(10, 10)));
    let payload = next_instruction("List", &data);
    assert_eq!(payload.get_path(), "List");
    assert_eq!(payload.get_data().value(), "\"dogs\"");
    assert_eq!(payload.get_data().get_page(), Some(Page(20, 10)));
}

#[test]
fn next_instruction_loses_a_value_that_is_no_string() {
    let data = Data::with_value("{\"id\":3}", Some(Page(0, 5)));
    let payload = next_instruction("List", &data);
    assert_eq!(payload.get_data().value(), "\"\"");
    assert_eq!(payload.get_data().get_page(), Some(Page(5, 5)));
}
