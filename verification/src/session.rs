//! The protocol by which a procedural macro collects diagnostics while it
//! runs: diagnostics are emitted only inside an entry point, an abort stops
//! the macro, and leaving the entry point decides what the macro expands to.
use vstd::prelude::*;

use crate::diagnostic::Diagnostic;

verus! {

/// What the caller of a session operation has to do next.
#[derive(Clone, Copy, Debug, PartialEq, Eq, Structural)]
pub enum Control {
    /// Go on with the macro.
    Continue,
    /// Stop the macro: unwind to the entry point with the abort marker.
    Abort,
    /// The diagnostics API was used outside of an entry point: panic with
    /// [`MISUSE_MESSAGE`].
    Misuse,
}

/// How the body of a macro ended.
#[derive(Clone, Copy, Debug, PartialEq, Eq, Structural)]
pub enum Outcome {
    /// It returned its output.
    Returned,
    /// It unwound with the abort marker.
    Aborted,
    /// It panicked with anything else.
    Panicked,
}

/// What a macro expands to when its entry point is left.
pub enum Finish<S> {
    /// The output that the body returned.
    Output,
    /// The preserved input followed by these diagnostics, in emission order.
    BodyWithErrors(Vec<Diagnostic<S>>),
    /// The body's panic goes on unwinding.
    Resume,
}

/// Panic message of a use of the diagnostics API outside of an entry point.
pub const MISUSE_MESSAGE: &'static str = "`common::diagnostic` API cannot be used outside of `entry_point()` invocation, perhaps you forgot to invoke it your #[proc_macro] function";

/// Panic payload by which an abort unwinds to the entry point.
pub const ABORT_MARKER: &'static str = "diagnostic::polyfill::abort_now";

/// The diagnostics state of one thread: how deep it is inside entry points,
/// and the diagnostics emitted since the innermost entry point was entered.
pub struct Session<S> {
    depth: usize,
    errors: Vec<Diagnostic<S>>,
}

/// A session as a value: its depth and its emitted diagnostics.
pub struct SessionState<S> {
    pub depth: nat,
    pub errors: Seq<Diagnostic<S>>,
}

/// The control that a use of the API gives in `s`, before it acts.
pub open spec fn check_spec<S>(s: SessionState<S>) -> Control {
    if s.depth == 0 {
        Control::Misuse
    } else {
        Control::Continue
    }
}

/// Emitting `d` in `s`: stored when inside an entry point.
pub open spec fn emit_spec<S>(s: SessionState<S>, d: Diagnostic<S>) -> (SessionState<S>, Control) {
    if s.depth == 0 {
        (s, Control::Misuse)
    } else {
        (SessionState { depth: s.depth, errors: s.errors.push(d) }, Control::Continue)
    }
}

/// Emitting all of `ds` in `s`, in order.
pub open spec fn emit_all_spec<S>(s: SessionState<S>, ds: Seq<Diagnostic<S>>) -> SessionState<S>
    decreases ds.len(),
{
    if ds.len() == 0 {
        s
    } else {
        emit_spec(emit_all_spec(s, ds.drop_last()), ds.last()).0
    }
}

/// Whether `abort_if_dirty` stops the macro in `s`.
pub open spec fn abort_if_dirty_spec<S>(s: SessionState<S>) -> Control {
    if s.depth == 0 {
        Control::Misuse
    } else if s.errors.len() > 0 {
        Control::Abort
    } else {
        Control::Continue
    }
}

/// What leaving the entry point yields, given the body's `outcome` and the
/// diagnostics emitted inside it.
pub open spec fn finish_spec<S>(outcome: Outcome, errors: Seq<Diagnostic<S>>) -> Option<Seq<Diagnostic<S>>> {
    match outcome {
        Outcome::Returned => if errors.len() == 0 { None } else { Some(errors) },
        Outcome::Aborted => Some(errors),
        Outcome::Panicked => None,
    }
}

impl<S> Session<S> {
    /// The session as a value.
    pub closed spec fn state(&self) -> SessionState<S> {
        SessionState { depth: self.depth as nat, errors: self.errors@ }
    }

    /// A session outside of any entry point, with nothing emitted.
    pub fn new() -> (res: Self)
        ensures
            res.state().depth == 0,
            res.state().errors.len() == 0,
    {
        Session { depth: 0, errors: Vec::new() }
    }

    /// How deep the session is inside entry points.
    pub fn depth(&self) -> (res: usize)
        ensures
            res == self.state().depth,
    {
        self.depth
    }

    /// How many diagnostics were emitted since the innermost entry point was
    /// entered.
    pub fn emitted(&self) -> (res: usize)
        ensures
            res == self.state().errors.len(),
    {
        self.errors.len()
    }

    /// Enters an entry point.
    pub fn enter(&mut self)
        requires
            old(self).state().depth < usize::MAX,
        ensures
            final(self).state().depth == old(self).state().depth + 1,
            final(self).state().errors == old(self).state().errors,
    {
        self.depth = self.depth + 1;
    }

    /// Checks that the API is used inside an entry point.
    pub fn check_correctness(&self) -> (res: Control)
        ensures
            res == check_spec(self.state()),
    {
        if self.depth == 0 {
            Control::Misuse
        } else {
            Control::Continue
        }
    }

    /// Emits `d` without stopping the macro.
    pub fn emit(&mut self, d: Diagnostic<S>) -> (res: Control)
        ensures
            (final(self).state(), res) == emit_spec(old(self).state(), d),
    {
        let c = self.check_correctness();
        if c == Control::Continue {
            self.errors.push(d);
        }
        c
    }

    /// Stops the macro.
    pub fn abort_now(&self) -> (res: Control)
        ensures
            res == (if self.state().depth == 0 { Control::Misuse } else { Control::Abort }),
    {
        if self.check_correctness() == Control::Misuse {
            Control::Misuse
        } else {
            Control::Abort
        }
    }

    /// Emits `d`, then stops the macro.
    pub fn abort(&mut self, d: Diagnostic<S>) -> (res: Control)
        ensures
            final(self).state() == emit_spec(old(self).state(), d).0,
            res == (if old(self).state().depth == 0 { Control::Misuse } else { Control::Abort }),
    {
        let c = self.emit(d);
        if c == Control::Misuse {
            Control::Misuse
        } else {
            self.abort_now()
        }
    }

    /// Stops the macro if any diagnostic was emitted.
    pub fn abort_if_dirty(&self) -> (res: Control)
        ensures
            res == abort_if_dirty_spec(self.state()),
    {
        if self.check_correctness() == Control::Misuse {
            Control::Misuse
        } else if self.errors.len() > 0 {
            Control::Abort
        } else {
            Control::Continue
        }
    }

    /// Leaves the innermost entry point after its body ended with
    /// `outcome`, taking the diagnostics emitted inside it.
    pub fn leave(&mut self, outcome: Outcome) -> (res: Finish<S>)
        requires
            old(self).state().depth > 0,
        ensures
            final(self).state().depth == old(self).state().depth - 1,
            final(self).state().errors.len() == 0,
            match finish_spec(outcome, old(self).state().errors) {
                Some(errs) => res matches Finish::BodyWithErrors(v) && v@ == errs,
                None => match outcome {
                    Outcome::Panicked => res is Resume,
                    _ => res is Output,
                },
            },
    {
        let mut errors = Vec::new();
        std::mem::swap(&mut errors, &mut self.errors);
        self.depth = self.depth - 1;
        match outcome {
            Outcome::Returned => if errors.len() == 0 {
                Finish::Output
            } else {
                Finish::BodyWithErrors(errors)
            },
            Outcome::Aborted => Finish::BodyWithErrors(errors),
            Outcome::Panicked => Finish::Resume,
        }
    }
}

/// Inside an entry point, emitting diagnostics one after another stores
/// them all, in emission order, after those stored before.
pub proof fn law_emitted_in_order<S>(s: SessionState<S>, ds: Seq<Diagnostic<S>>)
    requires
        s.depth > 0,
    ensures
        emit_all_spec(s, ds).depth == s.depth,
        emit_all_spec(s, ds).errors == s.errors + ds,
    decreases ds.len(),
{
    if ds.len() > 0 {
        law_emitted_in_order(s, ds.drop_last());
        assert(s.errors + ds.drop_last() + seq![ds.last()] =~= s.errors + ds);
    }
}

/// A macro run that emits the diagnostics `ds` from a clean start and then
/// returns is expanded into its preserved input and exactly `ds` when `ds`
/// is not empty, and into its own output otherwise; and `abort_if_dirty`
/// stops it exactly when `ds` is not empty.
pub proof fn law_run_reports_all<S>(s: SessionState<S>, ds: Seq<Diagnostic<S>>)
    requires
        s.depth > 0,
        s.errors.len() == 0,
    ensures
        finish_spec(Outcome::Returned, emit_all_spec(s, ds).errors) == (if ds.len() == 0 {
            None
        } else {
            Some(ds)
        }),
        finish_spec(Outcome::Aborted, emit_all_spec(s, ds).errors) == Some(ds),
        abort_if_dirty_spec(emit_all_spec(s, ds)) == (if ds.len() == 0 {
            Control::Continue
        } else {
            Control::Abort
        }),
{
    law_emitted_in_order(s, ds);
    assert(s.errors + ds =~= ds);
}

/// Outside of any entry point every use of the API is a misuse and changes
/// nothing.
pub proof fn law_outside_entry_point<S>(s: SessionState<S>, d: Diagnostic<S>)
    requires
        s.depth == 0,
    ensures
        emit_spec(s, d) == (s, Control::Misuse),
        abort_if_dirty_spec(s) == Control::Misuse,
        check_spec(s) == Control::Misuse,
{
}

} // verus!
