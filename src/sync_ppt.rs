//! The decisions of the breakpoint synchronizer: which debug events pause
//! the target for observation, how the session continues after each, and
//! which changes of the observed game are announced.

use vstd::prelude::*;
use crate::game_state::GameState;
use crate::state::{blank_view, State};

verus! {

/// A change announced to the history engine.
pub enum Notify {
    /// A new game started with this seed.
    Start(u16),
    /// The observed state changed to this one.
    Sync(State),
}

/// A request from the control surface.
pub enum Message {
    /// Write this earlier state back into the target.
    Undo(GameState),
}

/// How the target resumes after the event that was last handled.
#[derive(Clone, Copy, Debug, PartialEq, Eq, Structural)]
pub enum Disposition {
    /// The event was the session's own: the target carries on.
    Continue,
    /// The event belongs to the target: its own handlers see it.
    NotHandled,
}

/// What the session waits for.
#[derive(Clone, Copy, Debug, PartialEq, Eq, Structural)]
pub enum Phase {
    /// The breakpoint is armed; waiting for it to be hit.
    Armed,
    /// The displaced instruction is back in place and the trap flag set; waiting
    /// for the single step past it.
    Stepping,
}

/// A debug event reported by the operating system.
#[derive(Clone, Copy, Debug, PartialEq, Eq, Structural)]
pub enum DebugEvent {
    /// A breakpoint exception at `address` in `thread`.
    Breakpoint { thread: u32, address: u64 },
    /// A single-step exception in `thread`.
    SingleStep { thread: u32 },
    /// Any other exception in `thread`.
    OtherException { thread: u32 },
    /// The target process exited.
    ProcessExit { thread: u32 },
    /// Any other debug event.
    Other { thread: u32 },
}

/// What the caller does after an event.
#[derive(Clone, Copy, Debug, PartialEq, Eq, Structural)]
pub enum Action {
    /// Resume the target with the session's disposition and wait again.
    Resume,
    /// The breakpoint was hit: put the saved byte back, rewind the
    /// thread's instruction pointer to the address, observe, then set the
    /// trap flag and resume.
    Hit,
    /// The single step is done: arm the breakpoint again and resume.
    Stepped,
    /// The target is gone; the session cannot go on.
    TargetLost,
}

/// A debug session pausing the target at one instruction once per tick.
#[derive(Clone, Copy, Debug, PartialEq, Eq, Structural)]
pub struct Session {
    /// The instruction the breakpoint sits on.
    pub address: u64,
    /// The thread of the event last handled.
    pub thread_id: u32,
    /// How to resume after the event last handled.
    pub continue_kind: Disposition,
    pub phase: Phase,
}

/// The thread an event was reported for.
pub open spec fn event_thread(e: DebugEvent) -> u32 {
    match e {
        DebugEvent::Breakpoint { thread, .. } => thread,
        DebugEvent::SingleStep { thread } => thread,
        DebugEvent::OtherException { thread } => thread,
        DebugEvent::ProcessExit { thread } => thread,
        DebugEvent::Other { thread } => thread,
    }
}

/// Whether `e` is the event that phase `p` of a session at `address` waits for.
pub open spec fn awaited(p: Phase, address: u64, e: DebugEvent) -> bool {
    match p {
        Phase::Armed => e == DebugEvent::Breakpoint { thread: event_thread(e), address },
        Phase::Stepping => e == DebugEvent::SingleStep { thread: event_thread(e) },
    }
}

/// The session after event `e`, and what the caller does next. The awaited
/// event is taken and moves the session on; an exit ends it; any other
/// event is passed back to the target untouched.
pub open spec fn transition(s: Session, e: DebugEvent) -> (Session, Action) {
    let t = event_thread(e);
    if e is ProcessExit {
        (Session { thread_id: t, ..s }, Action::TargetLost)
    } else if awaited(s.phase, s.address, e) {
        match s.phase {
            Phase::Armed => (
                Session { thread_id: t, continue_kind: Disposition::Continue, phase: Phase::Stepping, ..s },
                Action::Hit,
            ),
            Phase::Stepping => (
                Session { thread_id: t, continue_kind: Disposition::Continue, phase: Phase::Armed, ..s },
                Action::Stepped,
            ),
        }
    } else {
        (Session { thread_id: t, continue_kind: Disposition::NotHandled, ..s }, Action::Resume)
    }
}

impl Session {
    /// A session that has just attached, with `thread_id` from the
    /// process-creation event; the breakpoint at `address` is to be armed
    /// before the first resume.
    pub fn new(address: u64, thread_id: u32) -> (r: Self)
        ensures
            r == (Session { address, thread_id, continue_kind: Disposition::NotHandled, phase: Phase::Armed }),
    {
        Session { address, thread_id, continue_kind: Disposition::NotHandled, phase: Phase::Armed }
    }

    /// Handles one debug event.
    pub fn on_event(&mut self, event: DebugEvent) -> (r: Action)
        ensures
            (*final(self), r) == transition(*old(self), event),
    {
        let thread = match event {
            DebugEvent::Breakpoint { thread, .. } => thread,
            DebugEvent::SingleStep { thread } => thread,
            DebugEvent::OtherException { thread } => thread,
            DebugEvent::ProcessExit { thread } => thread,
            DebugEvent::Other { thread } => thread,
        };
        self.thread_id = thread;
        let hit = match (self.phase, event) {
            (_, DebugEvent::ProcessExit { .. }) => {
                return Action::TargetLost;
            },
            (Phase::Armed, DebugEvent::Breakpoint { address, .. }) => address == self.address,
            (Phase::Stepping, DebugEvent::SingleStep { .. }) => true,
            _ => false,
        };
        if !hit {
            self.continue_kind = Disposition::NotHandled;
            return Action::Resume;
        }
        self.continue_kind = Disposition::Continue;
        match self.phase {
            Phase::Armed => {
                self.phase = Phase::Stepping;
                Action::Hit
            },
            Phase::Stepping => {
                self.phase = Phase::Armed;
                Action::Stepped
            },
        }
    }
}

/// Whether `n` announces a new game with seed `seed`.
pub open spec fn announces_start(n: Notify, seed: u16) -> bool {
    match n {
        Notify::Start(s) => s == seed,
        Notify::Sync(_) => false,
    }
}

/// Whether `n` announces the observed state `v`.
pub open spec fn announces_sync(n: Notify, v: crate::state::StateView) -> bool {
    match n {
        Notify::Start(_) => false,
        Notify::Sync(st) => st@ == v,
    }
}

/// What was last announced: the seed and the observed state.
pub struct Observer {
    pub latest_seed: u16,
    pub latest_state: State,
}

impl Observer {
    /// Nothing announced yet: seed zero and a blank state.
    pub fn new() -> (r: Self)
        ensures
            r.latest_seed == 0,
            r.latest_state@ == blank_view(),
    {
        Observer { latest_seed: 0, latest_state: State::new_blank() }
    }

    /// Takes in one tick's reads: the seed, if it could be read, and a
    /// snapshot, if a piece was active and the snapshot could be read. A
    /// seed other than the last one announces a new game and forgets the
    /// last state. Then a snapshot that differs from the last state and has
    /// an active piece is announced and remembered. New-game comes first.
    pub fn observe(&mut self, seed: Option<u16>, snapshot: Option<State>) -> (r: Vec<Notify>)
        ensures
            ({
                let started = seed is Some && seed->0 != old(self).latest_seed;
                let base = if started {
                    blank_view()
                } else {
                    old(self).latest_state@
                };
                let synced = snapshot is Some && snapshot->0@ != base && snapshot->0.current_piece is Some;
                &&& r@.len() == (if started { 1int } else { 0 }) + (if synced { 1int } else { 0 })
                &&& started ==> announces_start(r@[0], seed->0)
                &&& synced ==> announces_sync(r@.last(), snapshot->0@)
                &&& final(self).latest_seed == (if started { seed->0 } else { old(self).latest_seed })
                &&& final(self).latest_state@ == (if synced { snapshot->0@ } else { base })
            }),
    {
        let mut notes: Vec<Notify> = Vec::new();
        if let Some(s) = seed {
            if s != self.latest_seed {
                notes.push(Notify::Start(s));
                self.latest_seed = s;
                self.latest_state = State::new_blank();
            }
        }
        if let Some(st) = snapshot {
            if st.current_piece.is_some() && st != self.latest_state {
                notes.push(Notify::Sync(st.duplicate()));
                self.latest_state = st;
            }
        }
        notes
    }
}

} // verus!
