//! `preexec` / `precmd` hooks (as in zsh): `precmd` runs before each prompt,
//! `preexec` after a line is accepted and before it runs.  Hooks run in
//! registration order and receive a snapshot of the event.
use vstd::prelude::*;
use crate::text::owned;

verus! {

/// What a hook receives.
#[derive(Debug, Clone, PartialEq, Eq)]
pub struct HookEvent {
    /// `preexec`: the command line about to run; `precmd`: none.
    pub command: Option<String>,
    /// The exit code of the last command (`precmd`).
    pub exit_status: Option<i32>,
    /// How long the last command took, in milliseconds.
    pub duration_ms: Option<u64>,
    /// The working directory.
    pub cwd: Option<String>,
}

impl HookEvent {
    /// The event of `preexec`: the command line, nothing else.
    pub fn preexec(command: &str) -> (e: HookEvent)
        ensures
            e.command matches Some(c) && c@ == command@,
            e.exit_status is None,
            e.duration_ms is None,
            e.cwd is None,
    {
        HookEvent { command: Some(owned(command)), exit_status: None, duration_ms: None, cwd: None }
    }

    /// The event of `precmd`: the exit code of the last command and the
    /// working directory (when it could be read).
    pub fn precmd(exit_status: i32, cwd: Option<String>) -> (e: HookEvent)
        ensures
            e.command is None,
            e.exit_status == Some(exit_status),
            e.duration_ms is None,
            e.cwd == cwd,
    {
        HookEvent { command: None, exit_status: Some(exit_status), duration_ms: None, cwd }
    }
}

/// Whether every hook of `hooks` accepts every event.
pub open spec fn all_accept<F: Fn(&HookEvent)>(hooks: Seq<F>) -> bool {
    forall|i: int, e: &HookEvent| 0 <= i < hooks.len() ==> #[trigger] hooks[i].requires((e,))
}

/// The hook registry.
pub struct Hooks<F> {
    preexec: Vec<F>,
    precmd: Vec<F>,
}

impl<F: Fn(&HookEvent)> Hooks<F> {
    /// The `preexec` hooks, in registration order.
    pub closed spec fn preexec_hooks(&self) -> Seq<F> {
        self.preexec@
    }

    /// The `precmd` hooks, in registration order.
    pub closed spec fn precmd_hooks(&self) -> Seq<F> {
        self.precmd@
    }

    /// An empty registry.
    pub fn new() -> (h: Hooks<F>)
        ensures
            h.preexec_hooks().len() == 0,
            h.precmd_hooks().len() == 0,
    {
        Hooks { preexec: Vec::new(), precmd: Vec::new() }
    }

    /// Adds a `preexec` hook after the others.
    pub fn add_preexec(&mut self, f: F)
        ensures
            final(self).preexec_hooks() == old(self).preexec_hooks().push(f),
            final(self).precmd_hooks() == old(self).precmd_hooks(),
    {
        self.preexec.push(f);
    }

    /// Adds a `precmd` hook after the others.
    pub fn add_precmd(&mut self, f: F)
        ensures
            final(self).precmd_hooks() == old(self).precmd_hooks().push(f),
            final(self).preexec_hooks() == old(self).preexec_hooks(),
    {
        self.precmd.push(f);
    }

    /// Runs the `preexec` hooks in order with the event of `command`.
    pub fn run_preexec(&self, command: &str)
        requires
            all_accept(self.preexec_hooks()),
        ensures
            exists|ev: HookEvent|
                #![trigger all_ran(self.preexec_hooks(), &ev)]
                (ev.command matches Some(c) && c@ == command@) && ev.exit_status is None
                    && ev.duration_ms is None && ev.cwd is None && all_ran(self.preexec_hooks(), &ev),
    {
        let ev = HookEvent::preexec(command);
        run_all(&self.preexec, &ev);
    }

    /// Runs the `precmd` hooks in order with the event of the last exit
    /// code and the working directory.
    pub fn run_precmd(&self, exit_status: i32, cwd: Option<String>)
        requires
            all_accept(self.precmd_hooks()),
        ensures
            exists|ev: HookEvent|
                #![trigger all_ran(self.precmd_hooks(), &ev)]
                ev.command is None && ev.exit_status == Some(exit_status) && ev.duration_ms is None
                    && ev.cwd == cwd && all_ran(self.precmd_hooks(), &ev),
    {
        let ev = HookEvent::precmd(exit_status, cwd);
        run_all(&self.precmd, &ev);
    }

    /// The numbers of `preexec` and `precmd` hooks.
    pub fn len(&self) -> (r: (usize, usize))
        ensures
            r.0 == self.preexec_hooks().len(),
            r.1 == self.precmd_hooks().len(),
    {
        (self.preexec.len(), self.precmd.len())
    }

    /// Whether there is no hook at all.
    pub fn is_empty(&self) -> (r: bool)
        ensures
            r == (self.preexec_hooks().len() == 0 && self.precmd_hooks().len() == 0),
    {
        self.preexec.len() == 0 && self.precmd.len() == 0
    }
}

/// Whether every hook of `hooks` has run on `ev` (its postcondition holds
/// for that event).
pub open spec fn all_ran<F: Fn(&HookEvent)>(hooks: Seq<F>, ev: &HookEvent) -> bool {
    forall|i: int| 0 <= i < hooks.len() ==> #[trigger] hooks[i].ensures((ev,), ())
}

/// Calls each hook once, in order, with `ev`.
fn run_all<F: Fn(&HookEvent)>(hooks: &Vec<F>, ev: &HookEvent)
    requires
        all_accept(hooks@),
    ensures
        all_ran(hooks@, ev),
{
    let mut i: usize = 0;
    while i < hooks.len()
        invariant
            i <= hooks@.len(),
            all_accept(hooks@),
            forall|k: int| 0 <= k < i ==> #[trigger] hooks@[k].ensures((ev,), ()),
        decreases hooks@.len() - i,
    {
        let f = &hooks[i];
        assert(hooks@[i as int].requires((ev,)));
        f(ev);
        i = i + 1;
    }
}

} // verus!
