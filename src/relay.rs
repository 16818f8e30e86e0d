use vstd::prelude::*;

verus! {

/// The exit status of the parent after a user interrupt.
pub const INTERRUPT_EXIT_STATUS: i32 = 130;

/// A signal delivered to this process.
#[derive(PartialEq, Eq, Structural, Clone, Copy, Debug)]
pub enum Signal {
    /// The user asked to interrupt (Ctrl-C).
    Interrupt,
    /// A child changed state.
    ChildTerminated,
    /// Any other terminating signal, by its number.
    Other(i32),
}

/// What the relay does about a signal.
#[derive(PartialEq, Eq, Structural, Clone, Copy, Debug)]
pub enum RelayAction {
    /// Reap each registered process that has exited; registrations stay.
    ReapExited,
    /// Send the signal to the group of each registered process.
    SignalAll,
    /// Send the signal to each group, then exit with the given status.
    SignalAllThenExit(i32),
    /// The relay is not installed: the signal keeps its default effect.
    Default,
}

/// The policy that forwards terminating signals to supervised process
/// groups, and whether it is installed.
pub struct SignalRelay {
    installed: bool,
}

impl SignalRelay {
    pub closed spec fn is_installed_spec(&self) -> bool {
        self.installed
    }

    /// A relay that is not installed.
    pub fn new() -> (r: SignalRelay)
        ensures
            !r.is_installed_spec(),
    {
        SignalRelay { installed: false }
    }

    pub fn install(&mut self)
        ensures
            final(self).is_installed_spec(),
    {
        self.installed = true;
    }

    pub fn is_installed(&self) -> (r: bool)
        ensures
            r == self.is_installed_spec(),
    {
        self.installed
    }

    /// The action for `sig`: reap on a child's change of state; forward an
    /// interrupt to every group and exit with 130; forward any other signal.
    pub fn dispatch(&self, sig: Signal) -> (r: RelayAction)
        ensures
            r == (if !self.is_installed_spec() {
                RelayAction::Default
            } else {
                match sig {
                    Signal::ChildTerminated => RelayAction::ReapExited,
                    Signal::Interrupt => RelayAction::SignalAllThenExit(INTERRUPT_EXIT_STATUS),
                    Signal::Other(_) => RelayAction::SignalAll,
                }
            }),
    {
        if !self.installed {
            return RelayAction::Default;
        }
        match sig {
            Signal::ChildTerminated => RelayAction::ReapExited,
            Signal::Interrupt => RelayAction::SignalAllThenExit(INTERRUPT_EXIT_STATUS),
            Signal::Other(_) => RelayAction::SignalAll,
        }
    }
}

/// Uninstalls the relay: signals keep their default effect from now on.
pub fn disable_cleanup_on_ctrlc(relay: &mut SignalRelay)
    ensures
        !final(relay).is_installed_spec(),
{
    relay.installed = false;
}

} // verus!
