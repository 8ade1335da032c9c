use pybox::registry::{
    env_protected, env_value, injected_builtins, pybox_assign, pybox_del_local,
    pybox_exec_resolve, pybox_init_local, pybox_init_local_from, pybox_local_protect,
    removed_builtins, Registry,
};

#[test]
fn test_pybox_init_local_from() {
    let mut state = Registry::new();
    let from_id = b"source_local".to_vec();
    let result = pybox_init_local(&mut state, &from_id);
    assert_eq!(result, 0, "Failed to create source local");

    let new_id = b"copied_local".to_vec();
    let result = pybox_init_local_from(&mut state, &new_id, &from_id);
    assert_eq!(result, 0, "Failed to copy local");

    let result = pybox_init_local_from(&mut state, &new_id, &from_id);
    assert_eq!(result, -1, "Should fail when target already exists");

    let nonexistent = b"nonexistent".to_vec();
    let another_id = b"another_local".to_vec();
    let result = pybox_init_local_from(&mut state, &another_id, &nonexistent);
    assert_eq!(result, -1, "Should fail when source doesn't exist");
}

#[test]
fn test_protected_dict() {
    let mut state = Registry::new();
    let id = b"test_pybox_exec".to_vec();
    let name = b"my_var".to_vec();
    let result = pybox_init_local(&mut state, &id);
    assert_eq!(result, 0);
    let result = pybox_local_protect(&mut state, &id, &name);
    assert_eq!(result, 0);
}

#[test]
fn init_twice_fails_and_init_then_del_cancel() {
    let mut state = Registry::new();
    let id = b"env".to_vec();
    assert_eq!(pybox_init_local(&mut state, &id), 0);
    assert_eq!(pybox_init_local(&mut state, &id), -1, "duplicate id must fail");
    assert_eq!(pybox_del_local(&mut state, &id), 0);
    // The pair cancelled: the id can be created afresh, and deleting it
    // again without creating it fails.
    assert_eq!(pybox_del_local(&mut state, &id), -1);
    assert_eq!(pybox_init_local(&mut state, &id), 0);
}

#[test]
fn init_local_from_same_id_fails() {
    let mut state = Registry::new();
    let id = b"e".to_vec();
    assert_eq!(pybox_init_local(&mut state, &id), 0);
    // The target already exists when source and target are the same id.
    assert_eq!(pybox_init_local_from(&mut state, &id, &id), -1);
    // With a fresh id the source is the one that is missing.
    let fresh = b"fresh".to_vec();
    assert_eq!(pybox_init_local_from(&mut state, &fresh, &fresh), -1);
}

#[test]
fn invalid_utf8_is_rejected_everywhere() {
    let mut state = Registry::new();
    let bad = vec![0xFFu8, 0xFE];
    let good = b"env".to_vec();
    assert_eq!(pybox_init_local(&mut state, &bad), -1);
    assert_eq!(pybox_init_local(&mut state, &good), 0);
    assert_eq!(pybox_init_local_from(&mut state, &bad, &good), -1);
    assert_eq!(pybox_del_local(&mut state, &bad), -1);
    assert_eq!(pybox_local_protect(&mut state, &good, &bad), -1);
    let err = pybox_assign(&mut state, &good, &bad, &b"1".to_vec()).unwrap_err();
    assert_eq!(err, "Invalid UTF-8 encoding in id, name or object");
    let err = pybox_exec_resolve(&state, &bad, &b"print(1)".to_vec()).unwrap_err();
    assert_eq!(err, "Invalid UTF-8 encoding in id or code");
}

#[test]
fn assign_bypasses_protection_and_is_observable() {
    let mut state = Registry::new();
    let id = b"e".to_vec();
    assert_eq!(pybox_init_local(&mut state, &id), 0);

    let name = b"PI".to_vec();
    pybox_assign(&mut state, &id, &name, &b"3.14".to_vec()).expect("assign must succeed");
    assert_eq!(pybox_local_protect(&mut state, &id, &name), 0);
    assert_eq!(env_protected(&state, &id, &name), Some(true));

    // The privileged path still succeeds on the protected key, and the new
    // value is what a later lookup observes.
    pybox_assign(&mut state, &id, &name, &b"\"bypassed!\"".to_vec())
        .expect("assign must bypass protection");
    assert_eq!(env_value(&state, &id, &name).as_deref(), Some("\"bypassed!\""));
    assert_eq!(env_protected(&state, &id, &name), Some(true), "protection itself is kept");
}

#[test]
fn assign_reports_unknown_environment() {
    let mut state = Registry::new();
    let err = pybox_assign(&mut state, &b"ghost".to_vec(), &b"x".to_vec(), &b"1".to_vec())
        .unwrap_err();
    assert_eq!(err, "Local context 'ghost' not found");
}

#[test]
fn exec_resolution_checks_environment() {
    let mut state = Registry::new();
    let id = b"e".to_vec();
    assert_eq!(pybox_init_local(&mut state, &id), 0);
    // Zero-length code resolves fine: the run itself is the interpreter's.
    pybox_exec_resolve(&state, &id, &Vec::new()).expect("empty code resolves");
    let err = pybox_exec_resolve(&state, &b"other".to_vec(), &b"x = 1".to_vec()).unwrap_err();
    assert_eq!(err, "Local context not found");
}

#[test]
fn copy_on_init_isolation() {
    let mut state = Registry::new();
    let a = b"a".to_vec();
    let b = b"b".to_vec();
    let x = b"x".to_vec();
    assert_eq!(pybox_init_local(&mut state, &a), 0);
    pybox_assign(&mut state, &a, &x, &b"1".to_vec()).unwrap();
    assert_eq!(pybox_local_protect(&mut state, &a, &x), 0);

    assert_eq!(pybox_init_local_from(&mut state, &b, &a), 0);
    // The dictionary came across; the protection did not.
    assert_eq!(env_value(&state, &b, &x).as_deref(), Some("1"));
    assert_eq!(env_protected(&state, &b, &x), Some(false));
    assert_eq!(env_protected(&state, &a, &x), Some(true));

    // The copies are independent: writing into one leaves the other alone.
    pybox_assign(&mut state, &b, &x, &b"99".to_vec()).unwrap();
    assert_eq!(env_value(&state, &b, &x).as_deref(), Some("99"));
    assert_eq!(env_value(&state, &a, &x).as_deref(), Some("1"));
}

#[test]
fn assigned_document_comes_back_verbatim() {
    let mut state = Registry::new();
    let id = b"e".to_vec();
    assert_eq!(pybox_init_local(&mut state, &id), 0);
    let doc = b"{\"key\": \"value\", \"number\": 123, \"array\": [1, 2, 3]}".to_vec();
    pybox_assign(&mut state, &id, &b"complex_obj".to_vec(), &doc).unwrap();
    assert_eq!(
        env_value(&state, &id, &b"complex_obj".to_vec()).as_deref(),
        Some("{\"key\": \"value\", \"number\": 123, \"array\": [1, 2, 3]}"),
    );
}

#[test]
fn builtin_name_lists_are_fixed() {
    let removed = removed_builtins();
    assert_eq!(removed, vec!["threading", "_thread", "quit", "exit"]);
    let injected = injected_builtins();
    assert_eq!(injected, vec!["pybox_ioctl_host", "pybox_json_rpc", "ProtectedLocals"]);
}
