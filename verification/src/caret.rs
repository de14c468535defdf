use vstd::prelude::*;

verus! {

/// Length of one half-cycle of the caret blink, in milliseconds: the caret
/// is shown for this long, then hidden for this long.
pub const BLINK_PERIOD_MS: u64 = 500;

/// The state of the text editor's caret apart from the text layout itself:
/// whether it is shown, whether it blinks (and with which period), and
/// whether a mouse drag is extending the selection.
///
/// Blinking is timed from the instant of the last caret reset; that instant
/// is kept by the caller, which hands in the time elapsed since it.
pub struct CaretState {
    cursor_visible: bool,
    blinking: bool,
    blink_period_ms: u64,
    dragging: bool,
}

/// What a caret state holds.
pub struct CaretModel {
    pub visible: bool,
    pub blinking: bool,
    pub period_ms: nat,
    pub dragging: bool,
}

impl View for CaretState {
    type V = CaretModel;

    closed spec fn view(&self) -> CaretModel {
        CaretModel {
            visible: self.cursor_visible,
            blinking: self.blinking,
            period_ms: self.blink_period_ms as nat,
            dragging: self.dragging,
        }
    }
}

/// Whether a caret that started blinking `elapsed_ms` milliseconds ago with
/// the given period is in a shown phase: even-numbered periods show it.
pub open spec fn shown_after(elapsed_ms: int, period_ms: int) -> bool {
    (elapsed_ms / period_ms) % 2 == 0
}

/// The first multiple of `period` strictly after `phase`: when the caret
/// next changes phase, counted from the last reset.
pub open spec fn next_boundary(phase: int, period: int) -> int {
    (phase / period + 1) * period
}

impl CaretState {
    #[verifier::type_invariant]
    spec fn inv(self) -> bool {
        &&& self.blink_period_ms == 0 || self.blink_period_ms == BLINK_PERIOD_MS
        &&& self.blinking ==> self.blink_period_ms == BLINK_PERIOD_MS
    }

    /// A shown, non-blinking caret with no drag in progress.
    pub fn new() -> (c: Self)
        ensures
            c@.visible,
            !c@.blinking,
            c@.period_ms == 0,
            !c@.dragging,
    {
        CaretState { cursor_visible: true, blinking: false, blink_period_ms: 0, dragging: false }
    }

    /// Whether the caret is currently shown.
    pub fn is_cursor_visible(&self) -> (b: bool)
        ensures
            b == self@.visible,
    {
        self.cursor_visible
    }

    /// Whether a mouse drag is extending the selection.
    pub fn is_dragging(&self) -> (b: bool)
        ensures
            b == self@.dragging,
    {
        self.dragging
    }

    /// Whether the caret blinks (the blink clock is running).
    pub fn is_blinking(&self) -> (b: bool)
        ensures
            b == self@.blinking,
    {
        self.blinking
    }

    /// Restarts the blink: the caret is shown and blinks with the standard
    /// period, timed from now.
    pub fn cursor_reset(&mut self)
        ensures
            final(self)@.visible,
            final(self)@.blinking,
            final(self)@.period_ms == BLINK_PERIOD_MS,
            final(self)@.dragging == old(self)@.dragging,
    {
        self.blink_period_ms = BLINK_PERIOD_MS;
        self.blinking = true;
        self.cursor_visible = true;
    }

    /// Stops the blink clock; the caret keeps its current visibility.
    pub fn disable_blink(&mut self)
        ensures
            !final(self)@.blinking,
            final(self)@.visible == old(self)@.visible,
            final(self)@.period_ms == old(self)@.period_ms,
            final(self)@.dragging == old(self)@.dragging,
    {
        proof {
            use_type_invariant(&*self);
        }
        self.blinking = false;
    }

    /// Updates visibility `elapsed_ms` milliseconds after the last reset: a
    /// blinking caret is shown in even-numbered periods and hidden in odd
    /// ones; a caret that does not blink is hidden.
    pub fn cursor_blink(&mut self, elapsed_ms: u128)
        ensures
            final(self)@.visible == (old(self)@.blinking && shown_after(
                elapsed_ms as int,
                old(self)@.period_ms as int,
            )),
            final(self)@.blinking == old(self)@.blinking,
            final(self)@.period_ms == old(self)@.period_ms,
            final(self)@.dragging == old(self)@.dragging,
    {
        proof {
            use_type_invariant(&*self);
        }
        if self.blinking {
            let period = self.blink_period_ms as u128;
            self.cursor_visible = (elapsed_ms / period) % 2 == 0;
        } else {
            self.cursor_visible = false;
        }
    }

    /// When the caret next changes phase, in nanoseconds after the last
    /// reset, given that `phase_nanos` have passed since then; `None` when the
    /// caret does not blink. The value is cut to 64 bits, as a `Duration`
    /// built from nanoseconds is.
    pub fn next_blink_offset(&self, phase_nanos: u128) -> (t: Option<u64>)
        requires
            phase_nanos + BLINK_PERIOD_MS * 1_000_000 <= u128::MAX,
        ensures
            self@.blinking ==> t == Some(
                (next_boundary(phase_nanos as int, (self@.period_ms * 1_000_000) as int) % 0x1_0000_0000_0000_0000) as u64,
            ),
            !self@.blinking ==> t is None,
    {
        proof {
            use_type_invariant(self);
        }
        if self.blinking {
            let period = (self.blink_period_ms as u128) * 1_000_000;
            let q = phase_nanos / period;
            proof {
                lemma_next_boundary_bounds(phase_nanos as int, period as int);
            }
            let next = (q + 1) * period;
            Some((next % 0x1_0000_0000_0000_0000) as u64)
        } else {
            None
        }
    }

    /// A mouse press in the text: the caret restarts its blink and a drag
    /// begins.
    pub fn mouse_down(&mut self)
        ensures
            final(self)@.visible,
            final(self)@.blinking,
            final(self)@.period_ms == BLINK_PERIOD_MS,
            final(self)@.dragging,
    {
        self.cursor_reset();
        self.dragging = true;
    }

    /// Mouse movement with the button held: acts only while a drag is in
    /// progress, restarting the blink; returns whether the selection is to be
    /// extended to the pointer.
    pub fn mouse_drag(&mut self) -> (extend: bool)
        ensures
            extend == old(self)@.dragging,
            extend ==> final(self)@.visible && final(self)@.blinking && final(self)@.period_ms
                == BLINK_PERIOD_MS,
            !extend ==> final(self)@ == old(self)@,
            final(self)@.dragging == old(self)@.dragging,
    {
        if !self.dragging {
            return false;
        }
        self.cursor_reset();
        true
    }

    /// The mouse button is released: the drag ends.
    pub fn mouse_up(&mut self)
        ensures
            !final(self)@.dragging,
            final(self)@.visible == old(self)@.visible,
            final(self)@.blinking == old(self)@.blinking,
            final(self)@.period_ms == old(self)@.period_ms,
    {
        proof {
            use_type_invariant(&*self);
        }
        self.dragging = false;
    }
}

/// The next phase change lies strictly after `phase` and at most one period
/// later, on a multiple of the period.
pub proof fn lemma_next_boundary_bounds(phase: int, period: int)
    requires
        phase >= 0,
        period > 0,
    ensures
        phase < next_boundary(phase, period) <= phase + period,
        next_boundary(phase, period) % period == 0,
{
    let q = phase / period;
    let r = phase % period;
    assert(phase == q * period + r && 0 <= r < period) by (nonlinear_arith)
        requires
            period > 0,
            q == phase / period,
            r == phase % period,
    ;
    assert((q + 1) * period == q * period + period) by (nonlinear_arith);
    assert(((q + 1) * period) % period == 0) by (nonlinear_arith)
        requires
            period > 0,
            q >= 0,
    ;
}

/// A freshly reset caret stays shown for a whole period, then hides for
/// the next one.
pub proof fn lemma_blink_phases(elapsed_ms: int)
    requires
        0 <= elapsed_ms,
    ensures
        elapsed_ms < BLINK_PERIOD_MS ==> shown_after(elapsed_ms, BLINK_PERIOD_MS as int),
        BLINK_PERIOD_MS <= elapsed_ms < 2 * BLINK_PERIOD_MS ==> !shown_after(
            elapsed_ms,
            BLINK_PERIOD_MS as int,
        ),
{
}

} // verus!
