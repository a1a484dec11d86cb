//! Terminal-mode guard and window-size models.
//!
//! The real line-discipline and geometry calls are made by the unverified
//! binary; it reads the device state into the plain values here, lets these
//! functions decide, and writes the result back. What is verified is the
//! protocol: the guard restores exactly the settings it captured, whatever
//! raw settings were applied in between, and re-applying a geometry is
//! idempotent.

use vstd::prelude::*;

verus! {

/// A terminal's line-discipline settings, as the session model reads them:
/// the three properties raw mode must switch off, and the remaining
/// configuration packed into one word by the caller. Restoration is
/// field-for-field, so whatever the packing, restoring the captured value
/// restores the packed bits.
#[derive(Clone, Copy, Debug, PartialEq, Eq, Structural)]
pub struct TermSettings {
    /// Keystrokes are echoed back by the terminal driver.
    pub echo: bool,
    /// Input is line-buffered (canonical mode) rather than delivered byte by
    /// byte.
    pub canonical: bool,
    /// Signal keys (interrupt, quit, suspend) are interpreted by the driver.
    pub signal_keys: bool,
    /// The remaining line-discipline configuration.
    pub other: u64,
}

/// Raw mode: unbuffered, unechoed, signal keys passed through uninterpreted,
/// so every keystroke reaches the pseudo-terminal immediately.
pub open spec fn is_raw(s: TermSettings) -> bool {
    !s.echo && !s.canonical && !s.signal_keys
}

/// The model of a terminal device's current line discipline.
#[derive(Clone, Copy, Debug, PartialEq, Eq, Structural)]
pub struct Terminal {
    pub settings: TermSettings,
}

/// The raw-mode settings derived from the current ones: echo, canonical
/// buffering and signal interpretation switched off, the rest kept. The
/// platform's own raw-mode computation may adjust further packed bits; the
/// guard's restoration promise does not depend on which raw settings were
/// applied.
pub open spec fn spec_make_raw(s: TermSettings) -> TermSettings {
    TermSettings { echo: false, canonical: false, signal_keys: false, ..s }
}

/// Derive raw-mode settings from captured ones.
pub fn make_raw_settings(orig: TermSettings) -> (r: TermSettings)
    ensures
        r == spec_make_raw(orig),
        is_raw(r),
{
    TermSettings { echo: false, canonical: false, signal_keys: false, other: orig.other }
}

/// Captures the original line-discipline settings on creation and restores
/// exactly them on release, on every exit path, so no partial or garbled
/// terminal state remains after the session.
pub struct RawModeGuard {
    pub orig: TermSettings,
}

impl RawModeGuard {
    /// Capture the terminal's current settings.
    pub fn new(term: &Terminal) -> (g: RawModeGuard)
        ensures
            g.orig == term.settings,
    {
        RawModeGuard { orig: term.settings }
    }

    /// Switch the terminal to the given raw settings; the captured original
    /// stays untouched in the guard.
    pub fn enable_raw_mode(&self, term: &mut Terminal, raw: TermSettings)
        requires
            is_raw(raw),
        ensures
            final(term).settings == raw,
    {
        term.settings = raw;
    }

    /// Release the guard: the terminal gets back exactly the settings that
    /// were captured, bit for bit.
    pub fn release(self, term: &mut Terminal)
        ensures
            final(term).settings == self.orig,
    {
        term.settings = self.orig;
    }
}

/// Acquiring a guard captures the terminal's settings.
pub open spec fn spec_acquire(t: Terminal) -> RawModeGuard {
    RawModeGuard { orig: t.settings }
}

/// Setting a terminal's line discipline.
pub open spec fn spec_set(t: Terminal, s: TermSettings) -> Terminal {
    Terminal { settings: s }
}

/// Terminal-mode restoration: whatever settings were applied while the guard
/// was held, releasing the guard leaves the terminal exactly as it was when
/// the guard was acquired.
pub proof fn lemma_guard_round_trip(t: Terminal, applied: TermSettings)
    ensures
        spec_set(spec_set(t, applied), spec_acquire(t).orig) == t,
{
}

/// A terminal or pseudo-terminal geometry: rows, columns and pixel sizes.
#[derive(Clone, Copy, Debug, PartialEq, Eq, Structural)]
pub struct Winsize {
    pub rows: u16,
    pub cols: u16,
    pub xpixels: u16,
    pub ypixels: u16,
}

/// The fixed fallback geometry used when the real terminal cannot be
/// queried: 24 rows by 80 columns.
pub open spec fn fallback_winsize() -> Winsize {
    Winsize { rows: 24, cols: 80, xpixels: 0, ypixels: 0 }
}

/// The geometry a session uses: what the query returned, or the fixed
/// fallback when the query failed — a session should not fail to start
/// merely because geometry is unavailable.
pub fn winsize_or_fallback(queried: Option<Winsize>) -> (r: Winsize)
    ensures
        queried matches Some(w) ==> r == w,
        queried is None ==> r == fallback_winsize(),
{
    match queried {
        Option::Some(w) => w,
        Option::None => Winsize { rows: 24, cols: 80, xpixels: 0, ypixels: 0 },
    }
}

/// The model of a pseudo-terminal master's window geometry.
pub struct PtyWindow {
    pub size: Winsize,
}

/// Applying a geometry to a pseudo-terminal window.
pub open spec fn spec_apply(w: PtyWindow, size: Winsize) -> PtyWindow {
    PtyWindow { size }
}

impl PtyWindow {
    /// A pseudo-terminal window with its initial geometry, inherited from
    /// the real terminal at session start.
    pub fn new(initial: Winsize) -> (r: PtyWindow)
        ensures
            r.size == initial,
    {
        PtyWindow { size: initial }
    }

    /// Push a geometry onto the pseudo-terminal master.
    pub fn apply_size(&mut self, size: Winsize)
        ensures
            *final(self) == spec_apply(*old(self), size),
            final(self).size == size,
    {
        self.size = size;
    }

    /// One resize notification: re-query the real terminal's geometry, fall
    /// back when the query failed, apply the result to the pseudo-terminal.
    /// The caller then delivers the same resize notification to the child
    /// process group so its programs can react.
    pub fn handle_resize(&mut self, queried: Option<Winsize>) -> (applied: Winsize)
        ensures
            final(self).size == applied,
            queried matches Some(w) ==> applied == w,
            queried is None ==> applied == fallback_winsize(),
    {
        let size = winsize_or_fallback(queried);
        self.apply_size(size);
        size
    }
}

/// Applying the same geometry twice in a row leaves the window exactly as
/// after the first application; the second application changes nothing and
/// cannot fail, since applying is total on the model.
pub proof fn lemma_resize_idempotent(w: PtyWindow, size: Winsize)
    ensures
        spec_apply(spec_apply(w, size), size) == spec_apply(w, size),
{
}

} // verus!
