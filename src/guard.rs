use vstd::prelude::*;
use crate::error::{exit_outcome, outcome_of, CommandError};
use crate::registry::{
    after_register, after_unregister, handle_of, has_id, ids_unique, index_of, ProcessRegistry,
};

verus! {

/// What a guard knows of its process.
pub struct GuardState {
    pub pid: i32,
    /// The process is known to have exited: it must not be signalled again.
    pub abandoned: bool,
}

/// The guard once its process is known to have exited.
pub open spec fn abandoned(g: GuardState) -> GuardState {
    GuardState { pid: g.pid, abandoned: true }
}

/// Teardown signals the process group only where the process is not known
/// to have exited.
pub open spec fn teardown_signals(g: GuardState) -> bool {
    !g.abandoned
}

/// What teardown hands back: the handle of the process, which the caller
/// reaps, and whether to signal its group.
pub struct Release<H> {
    pub handle: H,
    pub signal_group: bool,
}

/// Sole owner of one registry entry: the process it names is signalled,
/// unregistered and reaped when the guard is torn down. Tearing down
/// consumes the guard, so it happens once.
pub struct SpawnGuard {
    pid: i32,
    abandoned: bool,
}

impl View for SpawnGuard {
    type V = GuardState;

    closed spec fn view(&self) -> GuardState {
        GuardState { pid: self.pid, abandoned: self.abandoned }
    }
}

impl SpawnGuard {
    /// Registers `handle` for process `id` and hands back the guard that owns
    /// the entry; where `id` is registered already, nothing changes and the
    /// handle comes back.
    pub fn adopt<H>(registry: &mut ProcessRegistry<H>, id: i32, handle: H) -> (r: Result<SpawnGuard, H>)
        requires
            old(registry).wf(),
        ensures
            final(registry).wf(),
            final(registry)@ == after_register(old(registry)@, id, handle),
            has_id(final(registry)@, id),
            match r {
                Ok(g) => !has_id(old(registry)@, id) && handle_of(final(registry)@, id) == Some(handle)
                    && g@ == (GuardState { pid: id, abandoned: false }),
                Err(h) => has_id(old(registry)@, id) && h == handle,
            },
    {
        match registry.register(id, handle) {
            Ok(()) => Ok(SpawnGuard { pid: id, abandoned: false }),
            Err(h) => Err(h),
        }
    }

    /// The process that the guard owns.
    pub fn id(&self) -> (r: i32)
        ensures
            r == self@.pid,
    {
        self.pid
    }

    pub fn is_abandoned(&self) -> (r: bool)
        ensures
            r == self@.abandoned,
    {
        self.abandoned
    }

    /// The process group to signal before teardown: the guard's process,
    /// unless it is known to have exited.
    pub fn signal_target(&self) -> (r: Option<i32>)
        ensures
            r == (if teardown_signals(self@) {
                Some(self@.pid)
            } else {
                None
            }),
    {
        if self.abandoned {
            None
        } else {
            Some(self.pid)
        }
    }

    /// Records that the process has been seen to exit, so that teardown
    /// sends it no signal.
    pub fn abandon(&mut self)
        ensures
            final(self)@ == abandoned(old(self)@),
    {
        self.abandoned = true;
    }

    /// Gives up the guard: removes its entry from `registry` and hands back
    /// the entry's handle, with whether to signal the process group.
    pub fn teardown<H>(self, registry: &mut ProcessRegistry<H>) -> (r: Option<Release<H>>)
        requires
            old(registry).wf(),
        ensures
            final(registry).wf(),
            final(registry)@ == after_unregister(old(registry)@, self@.pid),
            match handle_of(old(registry)@, self@.pid) {
                Some(h) => r == Some(Release { handle: h, signal_group: teardown_signals(self@) }),
                None => r is None,
            },
    {
        match registry.unregister(self.pid) {
            Some(handle) => Some(Release { handle, signal_group: !self.abandoned }),
            None => None,
        }
    }
}

/// Ends the supervision of a process whose wait has returned with exit
/// code `code`: the guard is abandoned (the process has exited, so it gets no
/// signal) and torn down. Hands back the outcome and the handle to reap.
pub fn finish<H>(guard: SpawnGuard, registry: &mut ProcessRegistry<H>, code: Option<i32>) -> (r: (
    Result<(), CommandError>,
    Option<H>,
))
    requires
        old(registry).wf(),
    ensures
        final(registry).wf(),
        r.0 == outcome_of(code),
        final(registry)@ == after_unregister(old(registry)@, guard@.pid),
        r.1 == handle_of(old(registry)@, guard@.pid),
{
    let mut guard = guard;
    guard.abandon();
    let handle = match guard.teardown(registry) {
        Some(rel) => Some(rel.handle),
        None => None,
    };
    (exit_outcome(code), handle)
}

/// After `abandon`, teardown sends no signal. Teardown removes the guard's
/// own entry and no other: the process is no longer registered, so removing
/// it again changes nothing, and every other process stays registered with
/// the handle it had.
pub proof fn lemma_teardown_removes_once<H>(g: GuardState, s: Seq<(i32, H)>, other: i32)
    requires
        ids_unique(s),
        other != g.pid,
    ensures
        !teardown_signals(abandoned(g)),
        !has_id(after_unregister(s, g.pid), g.pid),
        after_unregister(after_unregister(s, g.pid), g.pid) == after_unregister(s, g.pid),
        handle_of(after_unregister(s, g.pid), other) == handle_of(s, other),
{
    let id = g.pid;
    if has_id(s, id) {
        let k = index_of(s, id);
        let t = s.remove(k);
        assert(0 <= k < s.len() && s[k].0 == id);
        assert forall|a: int| 0 <= a < t.len() implies #[trigger] t[a].0 != id by {
            if a < k {
                assert(t[a] == s[a]);
                assert(s[a].0 != s[k].0);
            } else {
                assert(t[a] == s[a + 1]);
                assert(s[k].0 != s[a + 1].0);
            }
        }
        if has_id(s, other) {
            let j = index_of(s, other);
            assert(0 <= j < s.len() && s[j].0 == other);
            let j2 = if j < k { j } else { j - 1 };
            assert(t[j2] == s[j]);
            assert(has_id(t, other));
            let m = index_of(t, other);
            assert(0 <= m < t.len() && t[m].0 == other);
            let m0 = if m < k { m } else { m + 1 };
            assert(t[m] == s[m0]);
            assert(m0 == j) by {
                if m0 < j {
                    assert(s[m0].0 != s[j].0);
                } else if m0 > j {
                    assert(s[j].0 != s[m0].0);
                }
            }
        } else {
            assert forall|a: int| 0 <= a < t.len() implies #[trigger] t[a].0 != other by {
                if a < k {
                    assert(t[a] == s[a]);
                } else {
                    assert(t[a] == s[a + 1]);
                }
            }
        }
    }
}

} // verus!
