use esn_on_gba::interrupts::InterruptState;

#[test]
fn acquire_disables_and_records_prior_state() {
    let mut ime = InterruptState::new(true);
    let token = ime.acquire();
    assert_eq!(token, 1);
    assert!(!ime.is_enabled());
    ime.release(token);
    assert!(ime.is_enabled());
}

#[test]
fn acquire_from_disabled_stays_disabled() {
    let mut ime = InterruptState::new(false);
    let token = ime.acquire();
    assert_eq!(token, 0);
    assert!(!ime.is_enabled());
    ime.release(token);
    // The pair restores the outer state: still disabled.
    assert!(!ime.is_enabled());
}

#[test]
fn nested_sections_restore_the_outer_state() {
    let mut ime = InterruptState::new(true);
    let outer = ime.acquire();
    assert!(!ime.is_enabled());
    let inner = ime.acquire();
    assert_eq!(inner, 0);
    ime.release(inner);
    // The inner release must not re-enable interrupts early.
    assert!(!ime.is_enabled());
    ime.release(outer);
    assert!(ime.is_enabled());
}
