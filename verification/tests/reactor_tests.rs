use pybox::reactor::PyBoxReactor;

#[test]
fn init_assign_protect_through_the_boundary() {
    // The protected-constant flow, as far as the host-visible state goes:
    // create, inject, protect, inject again over the protection.
    let mut reactor = PyBoxReactor::new(65536);
    assert!(reactor.init_local("e"));
    reactor.assign("e", "PI", "3.14").expect("assign must succeed");
    assert!(reactor.protect("e", "PI"));
    assert_eq!(reactor.protected_of("e", "PI"), Some(true));
    assert_eq!(reactor.value_of("e", "PI").as_deref(), Some("3.14"));

    // The privileged injection bypasses the protection.
    reactor
        .assign("e", "PI", "\"bypassed!\"")
        .expect("assign must bypass protection");
    assert_eq!(reactor.value_of("e", "PI").as_deref(), Some("\"bypassed!\""));
    assert_eq!(reactor.protected_of("e", "PI"), Some(true));
}

#[test]
fn duplicate_and_missing_environments_fail_across_the_boundary() {
    let mut reactor = PyBoxReactor::new(65536);
    assert!(reactor.init_local("env"));
    assert!(!reactor.init_local("env"), "duplicate id must fail");
    assert!(!reactor.del_local("other"), "unknown id must fail");
    assert!(reactor.del_local("env"));
    assert!(!reactor.del_local("env"), "deleting twice must fail");
    assert!(!reactor.protect("env", "x"), "protect needs the environment");
}

#[test]
fn copy_on_init_through_the_boundary() {
    let mut reactor = PyBoxReactor::new(65536);
    assert!(reactor.init_local("a"));
    reactor.assign("a", "x", "1").unwrap();
    assert!(reactor.protect("a", "x"));
    assert!(reactor.init_local_from("b", "a"));

    assert_eq!(reactor.value_of("b", "x").as_deref(), Some("1"));
    assert_eq!(reactor.protected_of("b", "x"), Some(false));
    assert_eq!(reactor.protected_of("a", "x"), Some(true));

    assert!(!reactor.init_local_from("b", "a"), "target exists");
    assert!(!reactor.init_local_from("c", "ghost"), "source missing");
}

#[test]
fn assign_error_travels_back_through_the_error_buffer() {
    let mut reactor = PyBoxReactor::new(65536);
    let err = reactor.assign("ghost", "x", "1").unwrap_err();
    assert_eq!(err, "Local context 'ghost' not found");
}

#[test]
fn assign_error_degrades_when_the_heap_cannot_hold_it() {
    // Memory large enough to stage the arguments but not the error buffer:
    // the out-pointer cell stays null and the host reports generically.
    // Staging "ghost" + "x" + "1" + the cell takes 20 + 7 bytes of the
    // 56-byte heap; the 41-byte error record does not fit in what is left.
    let mut reactor = PyBoxReactor::new(64);
    let err = reactor.assign("ghost", "x", "1").unwrap_err();
    assert_eq!(err, "Unknown error");
}

#[test]
fn heap_accounting_is_exact() {
    let mut reactor = PyBoxReactor::new(1024);
    let before = reactor.heap_left();
    assert!(reactor.init_local("ab"));
    // One record: four bytes of header plus the two identifier bytes.
    assert_eq!(reactor.heap_left(), before - 6);
}
