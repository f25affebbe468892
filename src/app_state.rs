//! The stack of application states: the top is the active state, and the
//! stack is never empty.
use vstd::prelude::*;

verus! {

#[derive(Clone, Copy, Debug, PartialEq, Eq, Hash, Structural)]
pub enum AppState {
    MainMenu,
    Playing,
    Paused,
    Settings,
}

/// One operation on the state stack.
#[derive(Clone, Copy, Debug, PartialEq, Eq, Structural)]
pub enum StateOp {
    /// Replace the whole stack by one state.
    Replace(AppState),
    /// Suspend the active state under a new one.
    Push(AppState),
    /// Drop the active state and resume the one below.
    Pop,
}

#[derive(Clone, Copy, Debug, PartialEq, Eq, Structural)]
pub enum StateError {
    /// A pop would have left the stack empty.
    StackEmpty,
}

pub struct StateStack {
    states: Vec<AppState>,
}

impl View for StateStack {
    type V = Seq<AppState>;

    closed spec fn view(&self) -> Seq<AppState> {
        self.states@
    }
}

/// The stack after `op`; a pop that would empty the stack leaves it as it is.
pub open spec fn apply_op(s: Seq<AppState>, op: StateOp) -> Seq<AppState> {
    match op {
        StateOp::Replace(x) => seq![x],
        StateOp::Push(x) => s.push(x),
        StateOp::Pop => if s.len() >= 2 {
            s.drop_last()
        } else {
            s
        },
    }
}

/// The stack after each operation of `ops`, first to last.
pub open spec fn apply_ops(s: Seq<AppState>, ops: Seq<StateOp>) -> Seq<AppState>
    decreases ops.len(),
{
    if ops.len() == 0 {
        s
    } else {
        apply_op(apply_ops(s, ops.drop_last()), ops.last())
    }
}

impl StateStack {
    pub open spec fn wf(&self) -> bool {
        self@.len() >= 1
    }

    /// The active state, on top of the stack.
    pub open spec fn current_spec(&self) -> AppState {
        self@.last()
    }

    /// A stack holding only the main menu.
    pub fn new() -> (r: StateStack)
        ensures
            r@ == seq![AppState::MainMenu],
            r.wf(),
    {
        let mut states = Vec::new();
        states.push(AppState::MainMenu);
        StateStack { states }
    }

    pub fn current(&self) -> (r: AppState)
        requires
            self.wf(),
        ensures
            r == self.current_spec(),
    {
        self.states[self.states.len() - 1]
    }

    pub fn depth(&self) -> (r: usize)
        ensures
            r == self@.len(),
    {
        self.states.len()
    }

    /// Whether `state` is anywhere on the stack, active or suspended.
    pub fn contains(&self, state: AppState) -> (r: bool)
        ensures
            r == self@.contains(state),
    {
        let mut i: usize = 0;
        while i < self.states.len()
            invariant
                0 <= i <= self@.len(),
                forall|k: int| 0 <= k < i ==> self@[k] != state,
            decreases self@.len() - i,
        {
            if self.states[i] == state {
                return true;
            }
            i += 1;
        }
        false
    }

    /// Replaces the whole stack by `[state]`.
    pub fn set(&mut self, state: AppState)
        ensures
            final(self)@ == seq![state],
    {
        self.states.clear();
        self.states.push(state);
    }

    /// Makes `state` active, suspending the current one.
    pub fn push(&mut self, state: AppState)
        requires
            old(self)@.len() < usize::MAX,
        ensures
            final(self)@ == old(self)@.push(state),
    {
        self.states.push(state);
    }

    /// Drops the active state and returns it; the stack keeps at least one.
    pub fn pop(&mut self) -> (r: Result<AppState, StateError>)
        ensures
            old(self)@.len() >= 2 ==> r == Ok::<AppState, StateError>(old(self)@.last())
                && final(self)@ == old(self)@.drop_last(),
            old(self)@.len() < 2 ==> r == Err::<AppState, StateError>(StateError::StackEmpty)
                && final(self)@ == old(self)@,
    {
        if self.states.len() >= 2 {
            match self.states.pop() {
                Some(s) => Ok(s),
                None => Err(StateError::StackEmpty),
            }
        } else {
            Err(StateError::StackEmpty)
        }
    }

    /// Applies one operation; a refused pop leaves the stack unchanged.
    pub fn apply(&mut self, op: StateOp) -> (r: Result<(), StateError>)
        requires
            old(self)@.len() < usize::MAX,
        ensures
            final(self)@ == apply_op(old(self)@, op),
            r is Err <==> (op == StateOp::Pop && old(self)@.len() < 2),
    {
        match op {
            StateOp::Replace(x) => {
                self.set(x);
                Ok(())
            },
            StateOp::Push(x) => {
                self.push(x);
                Ok(())
            },
            StateOp::Pop => match self.pop() {
                Ok(_) => Ok(()),
                Err(e) => Err(e),
            },
        }
    }
}

/// Pushing a state and popping it again gives back the stack as it was.
pub proof fn lemma_push_then_pop(s: Seq<AppState>, x: AppState)
    requires
        s.len() >= 1,
    ensures
        apply_op(apply_op(s, StateOp::Push(x)), StateOp::Pop) == s,
{
    assert(s.push(x).drop_last() =~= s);
}

/// Setting a state collapses any stack, however deep, to that state alone.
pub proof fn lemma_set_collapses(s: Seq<AppState>, x: AppState)
    ensures
        apply_op(s, StateOp::Replace(x)) == seq![x],
        apply_op(s, StateOp::Replace(x)).len() == 1,
{
}

/// No operation empties a stack that holds a state.
pub proof fn lemma_ops_keep_nonempty(s: Seq<AppState>, ops: Seq<StateOp>)
    requires
        s.len() >= 1,
    ensures
        apply_ops(s, ops).len() >= 1,
    decreases ops.len(),
{
    if ops.len() > 0 {
        lemma_ops_keep_nonempty(s, ops.drop_last());
    }
}

} // verus!
