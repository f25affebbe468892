//! Deferred state transitions: each command waits on its own countdown and
//! is applied to the state stack once, in the tick its countdown runs out.
//!
//! Commands that come due in the same tick are applied by kind, pops first,
//! then replacements, then pushes, and within a kind in the order they were
//! queued.
use vstd::prelude::*;

use crate::app_state::{apply_ops, AppState, StateOp, StateStack};

verus! {

/// A one-shot countdown in milliseconds.
#[derive(Clone, Copy, Debug, PartialEq, Eq, Structural)]
pub struct DelayTimer {
    pub duration_ms: u64,
    pub elapsed_ms: u64,
}

impl DelayTimer {
    pub open spec fn wf(self) -> bool {
        self.elapsed_ms <= self.duration_ms
    }

    /// Whether the countdown runs out within the next `delta` milliseconds.
    pub open spec fn due(self, delta: u64) -> bool {
        self.elapsed_ms + delta >= self.duration_ms
    }

    pub fn new(duration_ms: u64) -> (r: DelayTimer)
        ensures
            r.duration_ms == duration_ms,
            r.elapsed_ms == 0,
            r.wf(),
    {
        DelayTimer { duration_ms, elapsed_ms: 0 }
    }

    pub fn is_due(&self, delta: u64) -> (r: bool)
        requires
            self.wf(),
        ensures
            r == self.due(delta),
    {
        delta >= self.duration_ms - self.elapsed_ms
    }
}

/// Replace the state stack by `target` once `delay` runs out.
#[derive(Clone, Copy, Debug, PartialEq, Eq, Structural)]
pub struct StateSetCommand {
    pub target: AppState,
    pub delay: DelayTimer,
}

/// Push `target` once `delay` runs out.
#[derive(Clone, Copy, Debug, PartialEq, Eq, Structural)]
pub struct StatePushCommand {
    pub target: AppState,
    pub delay: DelayTimer,
}

/// Pop the active state once `delay` runs out.
#[derive(Clone, Copy, Debug, PartialEq, Eq, Structural)]
pub struct StatePopCommand {
    pub delay: DelayTimer,
}

#[derive(Clone, Copy, Debug, PartialEq, Eq, Structural)]
pub enum DelayedCommand {
    Replace(StateSetCommand),
    Push(StatePushCommand),
    Pop(StatePopCommand),
}

impl DelayedCommand {
    pub open spec fn timer(self) -> DelayTimer {
        match self {
            DelayedCommand::Replace(c) => c.delay,
            DelayedCommand::Push(c) => c.delay,
            DelayedCommand::Pop(c) => c.delay,
        }
    }

    pub open spec fn op(self) -> StateOp {
        match self {
            DelayedCommand::Replace(c) => StateOp::Replace(c.target),
            DelayedCommand::Push(c) => StateOp::Push(c.target),
            DelayedCommand::Pop(_) => StateOp::Pop,
        }
    }

    /// Order among commands due in the same tick: lower goes first.
    pub open spec fn priority(self) -> int {
        match self {
            DelayedCommand::Pop(_) => 0,
            DelayedCommand::Replace(_) => 1,
            DelayedCommand::Push(_) => 2,
        }
    }

    /// The command with its countdown advanced by `delta`.
    pub open spec fn waited(self, delta: u64) -> DelayedCommand {
        let t = DelayTimer { elapsed_ms: (self.timer().elapsed_ms + delta) as u64, ..self.timer() };
        match self {
            DelayedCommand::Replace(c) => DelayedCommand::Replace(StateSetCommand { delay: t, ..c }),
            DelayedCommand::Push(c) => DelayedCommand::Push(StatePushCommand { delay: t, ..c }),
            DelayedCommand::Pop(c) => DelayedCommand::Pop(StatePopCommand { delay: t }),
        }
    }

    /// The command that replaces the stack by `target` after `delay_ms`.
    pub fn replace_after(target: AppState, delay_ms: u64) -> (r: DelayedCommand)
        ensures
            r == DelayedCommand::Replace(
                StateSetCommand { target, delay: DelayTimer { duration_ms: delay_ms, elapsed_ms: 0 } },
            ),
    {
        DelayedCommand::Replace(StateSetCommand { target, delay: DelayTimer::new(delay_ms) })
    }

    /// The command that pushes `target` after `delay_ms`.
    pub fn push_after(target: AppState, delay_ms: u64) -> (r: DelayedCommand)
        ensures
            r == DelayedCommand::Push(
                StatePushCommand { target, delay: DelayTimer { duration_ms: delay_ms, elapsed_ms: 0 } },
            ),
    {
        DelayedCommand::Push(StatePushCommand { target, delay: DelayTimer::new(delay_ms) })
    }

    /// The command that pops the active state after `delay_ms`.
    pub fn pop_after(delay_ms: u64) -> (r: DelayedCommand)
        ensures
            r == DelayedCommand::Pop(
                StatePopCommand { delay: DelayTimer { duration_ms: delay_ms, elapsed_ms: 0 } },
            ),
    {
        DelayedCommand::Pop(StatePopCommand { delay: DelayTimer::new(delay_ms) })
    }

    fn delay(&self) -> (r: DelayTimer)
        ensures
            r == self.timer(),
    {
        match self {
            DelayedCommand::Replace(c) => c.delay,
            DelayedCommand::Push(c) => c.delay,
            DelayedCommand::Pop(c) => c.delay,
        }
    }

    fn operation(&self) -> (r: StateOp)
        ensures
            r == self.op(),
    {
        match self {
            DelayedCommand::Replace(c) => StateOp::Replace(c.target),
            DelayedCommand::Push(c) => StateOp::Push(c.target),
            DelayedCommand::Pop(_) => StateOp::Pop,
        }
    }

    fn wait(&self, delta: u64) -> (r: DelayedCommand)
        requires
            self.timer().wf(),
            !self.timer().due(delta),
        ensures
            r == self.waited(delta),
            r.timer().wf(),
    {
        let t = DelayTimer { elapsed_ms: self.delay().elapsed_ms + delta, ..self.delay() };
        match self {
            DelayedCommand::Replace(c) => DelayedCommand::Replace(StateSetCommand { delay: t, ..*c }),
            DelayedCommand::Push(c) => DelayedCommand::Push(StatePushCommand { delay: t, ..*c }),
            DelayedCommand::Pop(_) => DelayedCommand::Pop(StatePopCommand { delay: t }),
        }
    }
}

/// Operations of the commands of priority `p` that come due within `delta`,
/// in queue order.
pub open spec fn due_ops(cmds: Seq<DelayedCommand>, p: int, delta: u64) -> Seq<StateOp>
    decreases cmds.len(),
{
    if cmds.len() == 0 {
        seq![]
    } else {
        let rest = due_ops(cmds.drop_last(), p, delta);
        let c = cmds.last();
        if c.priority() == p && c.timer().due(delta) {
            rest.push(c.op())
        } else {
            rest
        }
    }
}

/// The commands still waiting after `delta`, with their countdowns advanced.
pub open spec fn waiting_after(cmds: Seq<DelayedCommand>, delta: u64) -> Seq<DelayedCommand>
    decreases cmds.len(),
{
    if cmds.len() == 0 {
        seq![]
    } else {
        let rest = waiting_after(cmds.drop_last(), delta);
        let c = cmds.last();
        if c.timer().due(delta) {
            rest
        } else {
            rest.push(c.waited(delta))
        }
    }
}

/// Every operation that comes due within `delta`, in the order applied.
pub open spec fn fired_ops(cmds: Seq<DelayedCommand>, delta: u64) -> Seq<StateOp> {
    due_ops(cmds, 0, delta) + due_ops(cmds, 1, delta) + due_ops(cmds, 2, delta)
}

/// The commands waiting to be applied.
pub struct DelayedCommands {
    commands: Vec<DelayedCommand>,
}

impl View for DelayedCommands {
    type V = Seq<DelayedCommand>;

    closed spec fn view(&self) -> Seq<DelayedCommand> {
        self.commands@
    }
}

impl DelayedCommands {
    pub open spec fn wf(&self) -> bool {
        forall|i: int| 0 <= i < self@.len() ==> (#[trigger] self@[i]).timer().wf()
    }

    pub fn new() -> (r: DelayedCommands)
        ensures
            r@ == Seq::<DelayedCommand>::empty(),
            r.wf(),
    {
        DelayedCommands { commands: Vec::new() }
    }

    pub fn len(&self) -> (r: usize)
        ensures
            r == self@.len(),
    {
        self.commands.len()
    }

    /// Queues a command behind those already waiting.
    pub fn insert(&mut self, cmd: DelayedCommand)
        requires
            old(self).wf(),
            cmd.timer().wf(),
        ensures
            final(self)@ == old(self)@.push(cmd),
            final(self).wf(),
    {
        self.commands.push(cmd);
        assert forall|i: int| 0 <= i < self@.len() implies (#[trigger] self@[i]).timer().wf() by {
            if i < old(self)@.len() {
                assert(self@[i] == old(self)@[i]);
            }
        }
    }

    /// The operations of the commands due within `delta`, in the order
    /// they apply, and the commands still waiting after it.
    fn sort_due(&self, delta: u64) -> (r: (Vec<StateOp>, Vec<DelayedCommand>))
        requires
            self.wf(),
        ensures
            r.0@ == fired_ops(self@, delta),
            r.1@ == waiting_after(self@, delta),
            r.0@.len() <= self@.len(),
            forall|k: int| 0 <= k < r.1@.len() ==> (#[trigger] r.1@[k]).timer().wf(),
    {
        let n = self.commands.len();
        let mut pops: Vec<StateOp> = Vec::new();
        let mut replaces: Vec<StateOp> = Vec::new();
        let mut pushes: Vec<StateOp> = Vec::new();
        let mut waiting: Vec<DelayedCommand> = Vec::new();
        let mut i: usize = 0;
        while i < n
            invariant
                n == self.commands@.len(),
                0 <= i <= n,
                forall|k: int| 0 <= k < self@.len() ==> (#[trigger] self@[k]).timer().wf(),
                pops@ == due_ops(self@.take(i as int), 0, delta),
                replaces@ == due_ops(self@.take(i as int), 1, delta),
                pushes@ == due_ops(self@.take(i as int), 2, delta),
                waiting@ == waiting_after(self@.take(i as int), delta),
                forall|k: int| 0 <= k < waiting@.len() ==> (#[trigger] waiting@[k]).timer().wf(),
                pops@.len() + replaces@.len() + pushes@.len() <= i,
            decreases n - i,
        {
            let c = self.commands[i];
            proof {
                assert(self@.take(i + 1).drop_last() =~= self@.take(i as int));
                assert(self@.take(i + 1).last() == c);
            }
            if c.delay().is_due(delta) {
                match c {
                    DelayedCommand::Pop(_) => pops.push(c.operation()),
                    DelayedCommand::Replace(_) => replaces.push(c.operation()),
                    DelayedCommand::Push(_) => pushes.push(c.operation()),
                }
            } else {
                waiting.push(c.wait(delta));
            }
            i += 1;
        }
        proof {
            assert(self@.take(n as int) =~= self@);
        }
        let mut fired = pops;
        fired.append(&mut replaces);
        fired.append(&mut pushes);
        (fired, waiting)
    }

    /// Whether every pop due within `delta` will find at least two states
    /// on `stack` when its turn comes.
    pub fn pops_keep_a_state(&self, stack: &StateStack, delta: u64) -> (r: bool)
        requires
            self.wf(),
            stack@.len() + self@.len() < usize::MAX,
        ensures
            r == pops_leave_a_state(stack@, fired_ops(self@, delta)),
    {
        let (fired, _) = self.sort_due(delta);
        let ghost start = stack@;
        let mut depth: usize = stack.depth();
        let mut ok = true;
        let mut j: usize = 0;
        while j < fired.len()
            invariant
                0 <= j <= fired@.len(),
                fired@.len() <= self@.len(),
                start.len() + self@.len() < usize::MAX,
                depth == apply_ops(start, fired@.take(j as int)).len(),
                depth <= start.len() + j,
                ok == pops_leave_a_state(start, fired@.take(j as int)),
            decreases fired@.len() - j,
        {
            proof {
                assert(fired@.take(j + 1).drop_last() =~= fired@.take(j as int));
            }
            match fired[j] {
                StateOp::Replace(_) => {
                    depth = 1;
                },
                StateOp::Push(_) => {
                    depth = depth + 1;
                },
                StateOp::Pop => {
                    if depth >= 2 {
                        depth = depth - 1;
                    } else {
                        ok = false;
                    }
                },
            }
            j += 1;
        }
        proof {
            assert(fired@.take(fired@.len() as int) =~= fired@);
        }
        ok
    }

    /// Advances every countdown by `delta` milliseconds, applies the
    /// commands that ran out to `stack` and drops them. Returns the
    /// operations applied, in order. A pop that would empty the stack is a
    /// fault of whoever queued it, so none may come due on a stack of one
    /// state: `pops_keep_a_state` tells the caller beforehand.
    pub fn run_due(&mut self, stack: &mut StateStack, delta: u64) -> (fired: Vec<StateOp>)
        requires
            old(self).wf(),
            old(stack)@.len() + old(self)@.len() < usize::MAX,
            pops_leave_a_state(old(stack)@, fired_ops(old(self)@, delta)),
        ensures
            fired@ == fired_ops(old(self)@, delta),
            final(self)@ == waiting_after(old(self)@, delta),
            final(stack)@ == apply_ops(old(stack)@, fired@),
            final(self).wf(),
    {
        let n = self.commands.len();
        let (fired, waiting) = self.sort_due(delta);
        self.commands = waiting;
        let ghost start = stack@;
        let mut j: usize = 0;
        while j < fired.len()
            invariant
                0 <= j <= fired@.len(),
                fired@.len() <= n,
                start.len() + n < usize::MAX,
                stack@ == apply_ops(start, fired@.take(j as int)),
                stack@.len() <= start.len() + j,
            decreases fired@.len() - j,
        {
            proof {
                assert(fired@.take(j + 1).drop_last() =~= fired@.take(j as int));
            }
            let _ = stack.apply(fired[j]);
            j += 1;
        }
        proof {
            assert(fired@.take(fired@.len() as int) =~= fired@);
        }
        fired
    }
}

/// Whether each pop of `ops`, applied in turn from `s`, meets a stack of at
/// least two states.
pub open spec fn pops_leave_a_state(s: Seq<AppState>, ops: Seq<StateOp>) -> bool
    decreases ops.len(),
{
    if ops.len() == 0 {
        true
    } else {
        pops_leave_a_state(s, ops.drop_last()) && (ops.last() == StateOp::Pop ==> apply_ops(
            s,
            ops.drop_last(),
        ).len() >= 2)
    }
}

} // verus!
