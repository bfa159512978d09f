use std::cell::Cell;

use hidpi::registry::LibraryRegistry;

#[test]
fn same_name_is_loaded_once() {
    let loads = Cell::new(0u32);
    let mut reg: LibraryRegistry<u32> = LibraryRegistry::new();
    let mut answers = Vec::new();
    for _ in 0..8 {
        let r = reg.get_or_load("user32.dll", |_name: &str| {
            loads.set(loads.get() + 1);
            Some(7u32)
        });
        answers.push(r);
    }
    assert_eq!(loads.get(), 1);
    assert!(answers.iter().all(|a| *a == Some(0)));
    assert_eq!(*reg.handle(0), 7);
    assert_eq!(reg.len(), 1);
}

#[test]
fn failed_load_is_kept_and_not_retried() {
    let loads = Cell::new(0u32);
    let mut reg: LibraryRegistry<u32> = LibraryRegistry::new();
    for _ in 0..5 {
        let r = reg.get_or_load("shcore.dll", |_name: &str| {
            loads.set(loads.get() + 1);
            None
        });
        assert_eq!(r, None);
    }
    assert_eq!(loads.get(), 1);
    assert_eq!(reg.cached("shcore.dll"), Some(None));
}

#[test]
fn distinct_names_get_distinct_slots() {
    let mut reg: LibraryRegistry<&'static str> = LibraryRegistry::new();
    let a = reg.get_or_load("a.dll", |_n: &str| Some("A"));
    let b = reg.get_or_load("b.dll", |_n: &str| None);
    let c = reg.get_or_load("c.dll", |_n: &str| Some("C"));
    assert_eq!(a, Some(0));
    assert_eq!(b, None);
    assert_eq!(c, Some(1));
    assert_eq!(*reg.handle(1), "C");
    assert_eq!(reg.cached("a.dll"), Some(Some(0)));
    assert_eq!(reg.cached("d.dll"), None);
    assert_eq!(reg.len(), 3);
}

#[test]
fn loader_sees_the_requested_name() {
    let mut reg: LibraryRegistry<String> = LibraryRegistry::new();
    let r = reg.get_or_load("shcore.dll", |n: &str| Some(n.to_string()));
    assert_eq!(r, Some(0));
    assert_eq!(reg.handle(0), "shcore.dll");
}

#[test]
fn missing_system_library_is_absent() {
    let mut reg = LibraryRegistry::new();
    let first = reg.get_or_open("no_such_library_for_dpi_tests.so");
    let second = reg.get_or_open("no_such_library_for_dpi_tests.so");
    assert!(first.is_none());
    assert!(second.is_none());
    assert_eq!(reg.len(), 1);
}
