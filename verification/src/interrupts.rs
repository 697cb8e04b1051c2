//! The critical-section primitive: save the processor's master
//! interrupt-enable flag, disable interrupts, and later restore exactly the
//! saved state. The flag itself is a device register; this module carries
//! its value as a plain boolean, and the process around the library mirrors
//! every change into the register.

use vstd::prelude::*;

verus! {

/// Token handed out by `acquire`: nonzero exactly when interrupts were
/// enabled at acquire time.
pub open spec fn spec_acquire_token(enabled: bool) -> u8 {
    if enabled {
        1u8
    } else {
        0u8
    }
}

/// Enable state after `release`: re-enabled only if the token says the
/// matching acquire found interrupts enabled; otherwise left as it was.
pub open spec fn spec_release_state(enabled: bool, token: u8) -> bool {
    if token != 0 {
        true
    } else {
        enabled
    }
}

/// The processor's master interrupt-enable flag, as the library models it.
pub struct InterruptState {
    enabled: bool,
}

impl InterruptState {
    /// Whether interrupts are currently enabled.
    pub closed spec fn spec_enabled(self) -> bool {
        self.enabled
    }

    /// The flag as the hardware presents it at boot.
    pub fn new(enabled: bool) -> (s: Self)
        ensures
            s.spec_enabled() == enabled,
    {
        InterruptState { enabled }
    }

    /// Read back the flag.
    pub fn is_enabled(&self) -> (e: bool)
        ensures
            e == self.spec_enabled(),
    {
        self.enabled
    }

    /// Enter a critical section: disable interrupts and return a token
    /// recording whether they were enabled before.
    pub fn acquire(&mut self) -> (token: u8)
        ensures
            !final(self).spec_enabled(),
            token == spec_acquire_token(old(self).spec_enabled()),
    {
        let token: u8 = if self.enabled {
            1
        } else {
            0
        };
        self.enabled = false;
        token
    }

    /// Leave a critical section: re-enable interrupts only if the token
    /// indicates they were enabled when the section was entered.
    pub fn release(&mut self, token: u8)
        ensures
            final(self).spec_enabled() == spec_release_state(old(self).spec_enabled(), token),
    {
        if token != 0 {
            self.enabled = true;
        }
    }
}

/// A matched acquire/release pair restores the interrupt-enable state that
/// held before the pair, whatever that state was.
pub proof fn lemma_critical_section_restores(enabled: bool)
    ensures
        spec_release_state(false, spec_acquire_token(enabled)) == enabled,
{
}

/// Nested critical sections are safe: the inner pair runs entirely with
/// interrupts disabled, its release keeps them disabled (it restores the
/// outer saved state, not an unconditional enable), and the outer release
/// then restores the original state.
pub proof fn lemma_nested_critical_sections(enabled: bool)
    ensures
        spec_acquire_token(false) == 0u8,
        spec_release_state(false, spec_acquire_token(false)) == false,
        spec_release_state(false, spec_acquire_token(enabled)) == enabled,
{
}

} // verus!
