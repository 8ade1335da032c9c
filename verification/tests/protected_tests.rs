use pybox::protected::{delete_error_message, modify_error_message, MapError, ProtectedMap};

#[test]
fn protected_key_blocks_checked_write_and_keeps_value() {
    let mut m: ProtectedMap<String> = ProtectedMap::new();
    m.set_privileged("PI".to_string(), "3.14".to_string());
    m.protect("PI".to_string());

    let r = m.set_checked("PI".to_string(), "0".to_string());
    assert_eq!(r, Err(MapError::ProtectedKey));
    assert_eq!(m.get(&"PI".to_string()), Some(&"3.14".to_string()));
}

#[test]
fn protected_key_blocks_checked_delete() {
    let mut m: ProtectedMap<String> = ProtectedMap::new();
    m.set_privileged("k".to_string(), "v".to_string());
    m.protect("k".to_string());
    assert_eq!(m.del_checked(&"k".to_string()), Err(MapError::ProtectedKey));
    assert_eq!(m.get(&"k".to_string()), Some(&"v".to_string()));
}

#[test]
fn unprotected_writes_and_deletes_pass_through() {
    let mut m: ProtectedMap<String> = ProtectedMap::new();
    assert_eq!(m.set_checked("a".to_string(), "1".to_string()), Ok(()));
    assert_eq!(m.get(&"a".to_string()), Some(&"1".to_string()));
    assert_eq!(m.set_checked("a".to_string(), "2".to_string()), Ok(()));
    assert_eq!(m.get(&"a".to_string()), Some(&"2".to_string()));
    assert_eq!(m.del_checked(&"a".to_string()), Ok(()));
    assert_eq!(m.get(&"a".to_string()), None);
    assert_eq!(m.del_checked(&"a".to_string()), Err(MapError::MissingKey));
}

#[test]
fn protection_is_idempotent_and_reversible() {
    let mut m: ProtectedMap<String> = ProtectedMap::new();
    m.protect("k".to_string());
    m.protect("k".to_string());
    assert!(m.is_protected(&"k".to_string()));
    // A single unprotect undoes protection however often it was granted.
    m.unprotect(&"k".to_string());
    assert!(!m.is_protected(&"k".to_string()));
}

#[test]
fn protecting_a_missing_key_takes_effect_lazily() {
    let mut m: ProtectedMap<String> = ProtectedMap::new();
    m.protect("future".to_string());
    assert!(m.is_protected(&"future".to_string()));
    // The key can still be minted through the privileged path...
    m.set_privileged("future".to_string(), "now".to_string());
    assert_eq!(m.get(&"future".to_string()), Some(&"now".to_string()));
    // ...but not through the checked one.
    assert_eq!(
        m.set_checked("future".to_string(), "later".to_string()),
        Err(MapError::ProtectedKey)
    );
    assert_eq!(m.get(&"future".to_string()), Some(&"now".to_string()));
}

#[test]
fn length_and_keys_delegate_to_the_dictionary() {
    let mut m: ProtectedMap<String> = ProtectedMap::new();
    m.set_privileged("a".to_string(), "1".to_string());
    m.set_privileged("b".to_string(), "2".to_string());
    m.protect("a".to_string());
    m.protect("hidden".to_string());
    // Protection is invisible to length and key listing.
    assert_eq!(m.len(), 2);
    assert_eq!(m.keys(), vec!["a".to_string(), "b".to_string()]);
}

#[test]
fn copy_dict_drops_protection() {
    let mut m: ProtectedMap<String> = ProtectedMap::new();
    m.set_privileged("x".to_string(), "1".to_string());
    m.set_privileged("y".to_string(), "2".to_string());
    m.protect("x".to_string());

    let c = m.copy_dict();
    assert_eq!(c.get(&"x".to_string()), Some(&"1".to_string()));
    assert_eq!(c.get(&"y".to_string()), Some(&"2".to_string()));
    assert_eq!(c.len(), 2);
    assert!(!c.is_protected(&"x".to_string()));
    assert!(m.is_protected(&"x".to_string()));
}

#[test]
fn blocked_operations_name_the_key() {
    assert_eq!(
        modify_error_message(&"PI".to_string()),
        "Cannot modify protected key: 'PI'"
    );
    assert_eq!(
        delete_error_message(&"PI".to_string()),
        "Cannot delete protected key: 'PI'"
    );
}
