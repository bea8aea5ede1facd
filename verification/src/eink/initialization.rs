//! E-ink display initialization sequence.
//!
//! Real e-ink controllers (SSD1680, UC8151, ...) need a multi-step start-up
//! before use: power settling, panel detection, temperature sensor,
//! waveform tables, VCOM calibration, a checkerboard pattern and a clear to
//! white. The sequence goes Uninitialized → Initializing → Initialized, or
//! to Failed when a step comes after the timeout.
use vstd::prelude::*;
use crate::eink::clock::{elapsed_since, now, Instant};
use crate::eink::text::{decimal, fmt_u64};
use vstd::string::StringExecFns;

verus! {

/// Initialization state of the display
#[derive(Debug, Clone, PartialEq)]
pub enum InitializationState {
    /// Display has not been initialized
    Uninitialized,
    /// Display is currently initializing
    Initializing {
        /// Current step (1-7)
        step: u8,
        /// Total number of steps
        total_steps: u8,
    },
    /// Display successfully initialized and ready to use
    Initialized,
    /// Initialization failed
    Failed {
        /// Error message describing the failure
        error: String,
    },
}

impl Default for InitializationState {
    fn default() -> (r: Self)
        ensures
            r == InitializationState::Uninitialized,
    {
        InitializationState::Uninitialized
    }
}

impl InitializationState {
    /// Check if display is ready to use (initialized)
    pub fn is_ready(&self) -> (r: bool)
        ensures
            r == (*self is Initialized),
    {
        matches!(self, InitializationState::Initialized)
    }

    /// Check if display is currently initializing
    pub fn is_initializing(&self) -> (r: bool)
        ensures
            r == (*self is Initializing),
    {
        matches!(self, InitializationState::Initializing { .. })
    }

    /// Check if initialization failed
    pub fn is_failed(&self) -> (r: bool)
        ensures
            r == (*self is Failed),
    {
        matches!(self, InitializationState::Failed { .. })
    }
}

/// The text of a timeout failure after `elapsed` milliseconds:
/// `Initialization timeout after {elapsed}ms`.
pub open spec fn timeout_text(elapsed: u32) -> Seq<char> {
    "Initialization timeout after "@ + decimal(elapsed as nat) + "ms"@
}

/// The failure message of a timeout after `elapsed` milliseconds.
fn timeout_message(elapsed: u32) -> (r: String)
    ensures
        r@ == timeout_text(elapsed),
{
    String::from_str("Initialization timeout after ").concat(fmt_u64(elapsed as u64).as_str()).concat("ms")
}

/// `s1` and `r` are what advancing `s0` gives `elapsed_ms` milliseconds
/// after its start: with a start recorded and that time past the timeout,
/// the sequence fails with the timeout message; otherwise an initializing
/// sequence moves one step on and returns the new step, or, at the last
/// step, becomes Initialized and returns `None`; in any other state it is
/// refused and unchanged. Timeout and step count never change.
pub open spec fn step_outcome(s0: InitSequence, s1: InitSequence, r: Result<Option<u8>, String>, elapsed_ms: u32) -> bool {
    &&& s1.timeout() == s0.timeout()
    &&& s1.steps() == s0.steps()
    &&& s0.started() && elapsed_ms > s0.timeout() ==> {
        &&& r matches Err(m) && m@ == "Initialization timeout"@
        &&& s1.phase() matches InitializationState::Failed { error } && error@ == timeout_text(elapsed_ms)
        &&& s1.started()
    }
    &&& !(s0.started() && elapsed_ms > s0.timeout()) ==> match s0.phase() {
        InitializationState::Initializing { step, total_steps } => if step < total_steps {
            &&& r == Ok::<Option<u8>, String>(Some((step + 1) as u8))
            &&& s1.phase() == (InitializationState::Initializing { step: (step + 1) as u8, total_steps })
            &&& s1.started() == s0.started()
        } else {
            &&& r == Ok::<Option<u8>, String>(None)
            &&& s1.phase() == InitializationState::Initialized
            &&& !s1.started()
        },
        _ => {
            &&& r matches Err(m) && m@ == "Not initializing"@
            &&& s1.phase() == s0.phase()
            &&& s1.started() == s0.started()
        },
    }
}

/// Advancing `s0` gave `s1` and `r` after some time measured by the clock
/// (no time at all when no start is recorded); see [`step_outcome`].
pub open spec fn step_taken(s0: InitSequence, s1: InitSequence, r: Result<Option<u8>, String>) -> bool {
    exists|elapsed_ms: u32| (!s0.started() ==> elapsed_ms == 0) && #[trigger] step_outcome(s0, s1, r, elapsed_ms)
}

/// Initialization sequence manager with timeout detection.
pub struct InitSequence {
    /// Current initialization state
    state: InitializationState,
    /// Timeout in milliseconds (default: 5000ms)
    timeout_ms: u32,
    /// Total number of initialization steps
    total_steps: u8,
    /// Time when initialization started
    start_time: Option<Instant>,
}

impl InitSequence {
    /// The current state, as a contract sees it.
    pub closed spec fn phase(&self) -> InitializationState {
        self.state
    }

    /// The timeout in milliseconds, as a contract sees it.
    pub closed spec fn timeout(&self) -> u32 {
        self.timeout_ms
    }

    /// The number of steps, as a contract sees it.
    pub closed spec fn steps(&self) -> u8 {
        self.total_steps
    }

    /// Whether a start time is recorded, as a contract sees it.
    pub closed spec fn started(&self) -> bool {
        self.start_time is Some
    }

    /// The sequence's invariant: seven steps; an initializing sequence is
    /// at a step between 1 and 7 of 7 and keeps its start time; a start
    /// time is kept otherwise only by a sequence that failed by timing out.
    pub open spec fn wf(&self) -> bool {
        &&& self.steps() == 7
        &&& self.phase() matches InitializationState::Initializing { step, total_steps } ==> total_steps == 7 && 1
            <= step <= 7 && self.started()
        &&& self.started() ==> (self.phase() is Initializing || self.phase() is Failed)
    }

    /// Create new initialization sequence with default timeout (5000ms)
    pub fn new() -> (r: Self)
        ensures
            r.wf(),
            r.phase() == InitializationState::Uninitialized,
            r.timeout() == 5000,
            r.steps() == 7,
            !r.started(),
    {
        InitSequence {
            state: InitializationState::Uninitialized,
            timeout_ms: 5000,
            total_steps: 7,
            start_time: None,
        }
    }

    /// Set timeout in milliseconds
    pub fn set_timeout(&mut self, timeout_ms: u32)
        ensures
            old(self).wf() ==> final(self).wf(),
            final(self).timeout() == timeout_ms,
            final(self).phase() == old(self).phase(),
            final(self).steps() == old(self).steps(),
            final(self).started() == old(self).started(),
    {
        self.timeout_ms = timeout_ms;
    }

    /// Get timeout in milliseconds
    pub fn timeout_ms(&self) -> (r: u32)
        ensures
            r == self.timeout(),
    {
        self.timeout_ms
    }

    /// Get total number of steps
    pub fn total_steps(&self) -> (r: u8)
        ensures
            r == self.steps(),
    {
        self.total_steps
    }

    /// Get current initialization state
    pub fn state(&self) -> (r: &InitializationState)
        ensures
            *r == self.phase(),
    {
        &self.state
    }

    /// Start initialization sequence: from Uninitialized or Failed to
    /// Initializing at step 1, recording the start time.
    pub fn start(&mut self) -> (r: Result<(), String>)
        ensures
            old(self).wf() ==> final(self).wf(),
            old(self).phase() is Uninitialized || old(self).phase() is Failed <==> r is Ok,
            r is Ok ==> final(self).phase() == (InitializationState::Initializing {
                step: 1,
                total_steps: old(self).steps(),
            }) && final(self).started(),
            old(self).phase() is Initializing ==> (r matches Err(m) && m@
                == "Already initializing"@),
            old(self).phase() is Initialized ==> (r matches Err(m) && m@
                == "Already initialized"@),
            r is Err ==> final(self).phase() == old(self).phase() && final(self).started()
                == old(self).started(),
            final(self).timeout() == old(self).timeout(),
            final(self).steps() == old(self).steps(),
    {
        match &self.state {
            InitializationState::Uninitialized | InitializationState::Failed { .. } => {
                self.state = InitializationState::Initializing { step: 1, total_steps: self.total_steps };
                self.start_time = Some(now());
                Ok(())
            },
            InitializationState::Initializing { .. } => Err("Already initializing".to_owned()),
            InitializationState::Initialized => Err("Already initialized".to_owned()),
        }
    }

    /// Advance to the next initialization step, `elapsed_ms` milliseconds
    /// after the recorded start.
    ///
    /// With a start recorded and `elapsed_ms` past the timeout, the sequence
    /// fails. Otherwise an initializing sequence moves one step on and
    /// returns the new step, or, at the last step, becomes Initialized and
    /// returns `None`.
    pub fn next_step_at(&mut self, elapsed_ms: u32) -> (r: Result<Option<u8>, String>)
        ensures
            old(self).wf() ==> final(self).wf(),
            step_outcome(*old(self), *final(self), r, elapsed_ms),
    {
        if self.start_time.is_some() && elapsed_ms > self.timeout_ms {
            self.state = InitializationState::Failed { error: timeout_message(elapsed_ms) };
            return Err("Initialization timeout".to_owned());
        }
        match &self.state {
            InitializationState::Initializing { step, total_steps } => {
                let current_step = *step;
                let total = *total_steps;
                if current_step < total {
                    self.state = InitializationState::Initializing {
                        step: current_step + 1,
                        total_steps: total,
                    };
                    Ok(Some(current_step + 1))
                } else {
                    self.state = InitializationState::Initialized;
                    self.start_time = None;
                    Ok(None)
                }
            },
            _ => Err("Not initializing".to_owned()),
        }
    }

    /// Advance to next initialization step, checking the time elapsed since
    /// the start against the timeout (see [`Self::next_step_at`]).
    pub fn next_step(&mut self) -> (r: Result<Option<u8>, String>)
        ensures
            old(self).wf() ==> final(self).wf(),
            step_taken(*old(self), *final(self), r),
            final(self).timeout() == old(self).timeout(),
            final(self).steps() == old(self).steps(),
            !old(self).started() ==> match old(self).phase() {
                InitializationState::Initializing { step, total_steps } => if step < total_steps {
                    r == Ok::<Option<u8>, String>(Some((step + 1) as u8))
                } else {
                    r == Ok::<Option<u8>, String>(None) && final(self).phase()
                        == InitializationState::Initialized
                },
                _ => r is Err && final(self).phase() == old(self).phase(),
            },
            r is Ok ==> old(self).phase() is Initializing,
            r is Ok ==> match old(self).phase() {
                InitializationState::Initializing { step, total_steps } => if step < total_steps {
                    r == Ok::<Option<u8>, String>(Some((step + 1) as u8)) && final(self).phase()
                        == (InitializationState::Initializing { step: (step + 1) as u8, total_steps })
                } else {
                    r == Ok::<Option<u8>, String>(None) && final(self).phase()
                        == InitializationState::Initialized
                },
                _ => false,
            },
            r matches Ok(None) ==> final(self).phase() == InitializationState::Initialized,
            r matches Ok(Some(s)) ==> final(self).phase() matches InitializationState::Initializing {
                step,
                ..
            } && step == s,
            r is Err ==> final(self).phase() is Failed || final(self).phase() == old(self).phase(),
    {
        let elapsed = self.elapsed_ms();
        let r = self.next_step_at(elapsed);
        assert(step_outcome(*old(self), *self, r, elapsed));
        r
    }

    /// Mark initialization as failed
    pub fn fail(&mut self, error: String)
        ensures
            old(self).wf() ==> final(self).wf(),
            final(self).phase() == (InitializationState::Failed { error }),
            !final(self).started(),
            final(self).timeout() == old(self).timeout(),
            final(self).steps() == old(self).steps(),
    {
        self.state = InitializationState::Failed { error };
        self.start_time = None;
    }

    /// Reset to uninitialized state
    pub fn reset(&mut self)
        ensures
            old(self).wf() ==> final(self).wf(),
            final(self).phase() == InitializationState::Uninitialized,
            !final(self).started(),
            final(self).timeout() == old(self).timeout(),
            final(self).steps() == old(self).steps(),
    {
        self.state = InitializationState::Uninitialized;
        self.start_time = None;
    }

    /// Get elapsed time since initialization started (in milliseconds), or
    /// 0 when no start is recorded.
    pub fn elapsed_ms(&self) -> (r: u32)
        ensures
            !self.started() ==> r == 0,
    {
        match &self.start_time {
            Some(start) => {
                let ms = elapsed_since(start);
                #[verifier::truncate]
                (ms as u32)
            },
            None => 0,
        }
    }
}

impl Default for InitSequence {
    fn default() -> (r: Self)
        ensures
            r.phase() == InitializationState::Uninitialized,
            r.timeout() == 5000,
            r.steps() == 7,
            !r.started(),
            r.wf(),
    {
        Self::new()
    }
}

/// Initialization step information
pub struct InitStep {
    /// Step number (1-7)
    pub number: u8,
    /// Step description
    pub description: &'static str,
    /// Duration in milliseconds
    pub duration_ms: u32,
    /// Whether this step has visual output
    pub has_visual: bool,
}

/// Description, duration and visual flag of step `n` (1 to 7).
pub open spec fn step_table(n: int) -> (Seq<char>, u32, bool) {
    if n == 1 {
        ("Power settling"@, 100u32, false)
    } else if n == 2 {
        ("Panel detection"@, 50u32, false)
    } else if n == 3 {
        ("Temperature sensor"@, 20u32, false)
    } else if n == 4 {
        ("Waveform tables"@, 200u32, false)
    } else if n == 5 {
        ("VCOM calibration"@, 100u32, false)
    } else if n == 6 {
        ("Checkerboard pattern"@, 500u32, true)
    } else {
        ("Clear to white"@, 1000u32, true)
    }
}

/// `s` describes step `n`.
pub open spec fn step_is(s: InitStep, n: int) -> bool {
    &&& s.number == n
    &&& s.description@ == step_table(n).0
    &&& s.duration_ms == step_table(n).1
    &&& s.has_visual == step_table(n).2
}

impl InitStep {
    /// Get all initialization steps, in order
    pub fn all_steps() -> (r: [InitStep; 7])
        ensures
            forall|i: int| 0 <= i < 7 ==> step_is(#[trigger] r@[i], i + 1),
    {
        let r = [
            InitStep { number: 1, description: "Power settling", duration_ms: 100, has_visual: false },
            InitStep { number: 2, description: "Panel detection", duration_ms: 50, has_visual: false },
            InitStep { number: 3, description: "Temperature sensor", duration_ms: 20, has_visual: false },
            InitStep { number: 4, description: "Waveform tables", duration_ms: 200, has_visual: false },
            InitStep { number: 5, description: "VCOM calibration", duration_ms: 100, has_visual: false },
            InitStep { number: 6, description: "Checkerboard pattern", duration_ms: 500, has_visual: true },
            InitStep { number: 7, description: "Clear to white", duration_ms: 1000, has_visual: true },
        ];
        assert(step_is(r@[0], 1));
        assert(step_is(r@[1], 2));
        assert(step_is(r@[2], 3));
        assert(step_is(r@[3], 4));
        assert(step_is(r@[4], 5));
        assert(step_is(r@[5], 6));
        assert(step_is(r@[6], 7));
        r
    }

    /// Get specific step by number (1-indexed)
    pub fn get(step: u8) -> (r: Option<InitStep>)
        ensures
            1 <= step <= 7 <==> r is Some,
            r matches Some(s) ==> step_is(s, step as int),
    {
        let steps = Self::all_steps();
        let mut i: usize = 0;
        while i < 7
            invariant
                i <= 7,
                forall|k: int| 0 <= k < 7 ==> step_is(#[trigger] steps@[k], k + 1),
                forall|k: int| 0 <= k < i ==> steps@[k].number != step,
            decreases 7 - i,
        {
            if steps[i].number == step {
                let s = &steps[i];
                return Some(InitStep {
                    number: s.number,
                    description: s.description,
                    duration_ms: s.duration_ms,
                    has_visual: s.has_visual,
                });
            }
            i = i + 1;
        }
        assert(step < 1 || step > 7) by {
            if 1 <= step <= 7 {
                assert(steps@[step - 1].number == step);
            }
        }
        None
    }
}

} // verus!
