use monster_shell::command::AccessLevel;
use monster_shell::position::{SHELL_HEIGHT, SHELL_WIDTH};
use monster_shell::registry::SessionRegistry;

fn registry(hostnames: &[&str]) -> SessionRegistry {
    SessionRegistry::new(hostnames.iter().map(|name| name.to_string()).collect())
}

fn flags(registry: &SessionRegistry) -> Vec<bool> {
    (0..registry.len()).map(|index| registry.session(index).unwrap().selected).collect()
}

fn shown(registry: &SessionRegistry, row: usize) -> String {
    registry.snapshot().expect("a selected session")[row].trim_end().to_string()
}

#[test]
fn the_first_session_is_selected() {
    let registry = registry(&["test01", "test02"]);
    assert_eq!(registry.len(), 2);
    assert_eq!(registry.selected(), Some(0));
    assert_eq!(flags(&registry), [true, false]);
}

#[test]
fn sessions_start_in_the_order_of_their_hosts() {
    let registry = registry(&["a", "b", "c"]);
    for (index, name) in ["a", "b", "c"].iter().enumerate() {
        let session = registry.session(index).unwrap();
        assert_eq!(session.hostname.0, *name);
        assert_eq!(session.access_level, AccessLevel::User);
        assert!(session.shell_data.snapshot().iter().all(|row| row.trim().is_empty()));
    }
    assert!(registry.session(3).is_none());
}

#[test]
fn an_empty_registry_has_no_selected_session() {
    let mut registry = registry(&[]);
    assert_eq!(registry.len(), 0);
    assert_eq!(registry.selected(), None);
    assert_eq!(registry.snapshot(), None);
    assert!(registry.session(0).is_none());
    assert!(!registry.select(0));
    registry.handle_input("login", true);
    assert_eq!(registry.len(), 0);
    assert_eq!(registry.selected(), None);
}

#[test]
fn select_moves_the_selection() {
    let mut registry = registry(&["a", "b", "c"]);
    assert!(registry.select(2));
    assert_eq!(registry.selected(), Some(2));
    assert_eq!(flags(&registry), [false, false, true]);
    assert!(registry.select(1));
    assert_eq!(registry.selected(), Some(1));
    assert_eq!(flags(&registry), [false, true, false]);
    assert!(registry.select(1));
    assert_eq!(flags(&registry), [false, true, false]);
}

#[test]
fn select_of_a_missing_session_changes_nothing() {
    let mut registry = registry(&["a", "b"]);
    assert!(registry.select(1));
    assert!(!registry.select(2));
    assert!(!registry.select(usize::MAX));
    assert_eq!(registry.selected(), Some(1));
    assert_eq!(flags(&registry), [false, true]);
}

#[test]
fn input_goes_to_the_selected_session_only() {
    let mut registry = registry(&["test01", "test02"]);
    registry.handle_input("", true);
    registry.handle_input("login", true);
    assert_eq!(registry.session(0).unwrap().access_level, AccessLevel::Admin);
    assert_eq!(registry.session(1).unwrap().access_level, AccessLevel::User);
    assert!(registry.session(1).unwrap().shell_data.snapshot().iter().all(|row| row.trim().is_empty()));
    assert_eq!(flags(&registry), [true, false]);

    assert!(registry.select(1));
    registry.handle_input("hello", false);
    assert_eq!(registry.session(1).unwrap().shell_data.snapshot()[0].trim_end(), "hello");
    assert_eq!(registry.session(0).unwrap().shell_data.snapshot()[2].trim_end(), "test01> login");
    assert_eq!(registry.session(0).unwrap().shell_data.snapshot()[4].trim_end(), "test01#");
    assert_eq!(registry.session(0).unwrap().access_level, AccessLevel::Admin);
}

#[test]
fn snapshot_shows_the_selected_session() {
    let mut registry = registry(&["test01", "test02"]);
    registry.handle_input("", true);
    assert_eq!(shown(&registry, 2), "test01>");
    assert!(registry.select(1));
    assert_eq!(shown(&registry, 2), "");
    registry.handle_input("", true);
    assert_eq!(shown(&registry, 2), "test02>");
    assert!(registry.select(0));
    assert_eq!(shown(&registry, 2), "test01>");
}

#[test]
fn snapshot_is_a_full_screen() {
    let registry = registry(&["test01"]);
    let rows = registry.snapshot().unwrap();
    assert_eq!(rows.len(), SHELL_HEIGHT);
    assert!(rows.iter().all(|row| row.chars().count() == SHELL_WIDTH));
}
