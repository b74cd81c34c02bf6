//! Two kinds of bar: the boring bar (a bar of cells and a count) and the braille bar (one
//! glyph and a name).
use vstd::prelude::*;
use core::sync::atomic::{AtomicBool, AtomicUsize, Ordering};
use std::sync::Arc;

use crate::outside::{arc_clone, call_text};
use crate::render::{
    boring_bar_line, boring_line, boring_next_draws, braille_line, braille_line_spec,
    braille_step, wrapped_sum, SPINNER_LEN,
};
use crate::{BarBuild, BarDraw, BarDrawParams, BarState};

pub use crate::render::{BLUE, CLEAR, GREEN, RED, YELLOW};
use crate::render::{full_glyph, percent_text, progress_glyph, BAR_CELLS, END_LINE, NAME_WIDTH};
use crate::text::{decimal, pad_left, repeat};

verus! {

struct BoringBarState {
    current: AtomicUsize,
    finished: AtomicBool,
    aborted: AtomicBool,
}

/// A handle to the boring bar that can used to update the progress of the bar.
#[derive(Clone)]
pub struct BoringBarHandle {
    state: Arc<BoringBarState>,
    multibar: BarState,
}

/// The handle used to update the progress bar.
impl BoringBarHandle {
    /// Set a new value for the progress and trigger a redraw. Gives, as a ghost, the progress
    /// the shared counter held and the progress it holds now.
    pub fn set(&self, val: usize) -> (step: Ghost<(usize, usize)>)
        ensures
            step@.1 == val,
    {
        let found = self.state.current.swap(val, Ordering::Release);
        self.multibar.redraw();
        Ghost((found, val))
    }

    /// Increment the progress by the given amount (wrapping, as the shared counter does). Gives,
    /// as a ghost, the progress the shared counter held and the progress it holds now.
    pub fn incr(&self, incr: usize) -> (step: Ghost<(usize, usize)>)
        ensures
            step@.1 == wrapped_sum(step@.0, incr),
    {
        let found = self.state.current.fetch_add(incr, Ordering::Release);
        self.multibar.redraw();
        Ghost((found, wrapped_sum(found, incr)))
    }

    /// Increment the progress by 1. Gives, as a ghost, the progress the shared counter held and
    /// the progress it holds now.
    pub fn tick(&self) -> (step: Ghost<(usize, usize)>)
        ensures
            step@.1 == wrapped_sum(step@.0, 1),
    {
        self.incr(1)
    }

    /// Finish rendering the bar. It will be redrawn once more and never again.
    pub fn finish(&self) {
        self.state.finished.store(true, Ordering::Release);
        self.multibar.redraw()
    }
}

/// A builder for the boring bar. Right now you can only specify a name and a total. Use a
/// total of `0` for a looping progress bar.
pub struct BoringBarBuilder {
    name: String,
    total: usize,
}

impl BoringBarBuilder {
    /// A progress bar with the total size. If the total is 0, progress will be shown as a
    /// rolling update.
    pub fn new(name: String, total: usize) -> (b: BoringBarBuilder)
        ensures
            b.spec_name() == name@,
            b.spec_total() == total,
    {
        BoringBarBuilder { name, total }
    }

    /// The name of the bar to build.
    pub closed spec fn spec_name(&self) -> Seq<char> {
        self.name@
    }

    /// The total of the bar to build.
    pub closed spec fn spec_total(&self) -> usize {
        self.total
    }
}

impl BarBuild for BoringBarBuilder {
    type Handle = BoringBarHandle;

    type Drawer = BoringBarDrawer;

    fn build(self, multibar: BarState) -> (r: (BoringBarHandle, BoringBarDrawer))
        ensures
            r.1.spec_name() == self.spec_name(),
            r.1.spec_total() == self.spec_total(),
            r.1.spec_draws() == 0,
            !r.1.spec_finished_seen(),
            !r.1.spec_aborted_seen(),
    {
        let state = Arc::new(
            BoringBarState {
                current: AtomicUsize::new(0),
                finished: AtomicBool::new(false),
                aborted: AtomicBool::new(false),
            },
        );
        let handle = BoringBarHandle { state: arc_clone(&state), multibar };
        let drawer = BoringBarDrawer {
            name: self.name,
            total: self.total,
            draws: 0,
            state,
            finished_seen: Ghost(false),
            aborted_seen: Ghost(false),
        };
        (handle, drawer)
    }
}

/// The drawer of a boring bar, kept by the multibar.
pub struct BoringBarDrawer {
    name: String,
    /// The total the bar was built with; `0` for a looping bar.
    total: usize,
    draws: usize,
    state: Arc<BoringBarState>,
    /// The bar's finished flag as the last draw found it.
    finished_seen: Ghost<bool>,
    /// The bar's aborted flag as the last draw found it.
    aborted_seen: Ghost<bool>,
}

impl BoringBarDrawer {
    /// The name the bar shows.
    pub closed spec fn spec_name(&self) -> Seq<char> {
        self.name@
    }

    /// How often a looping bar has been drawn; it places the lit window.
    pub closed spec fn spec_draws(&self) -> usize {
        self.draws
    }

    /// The total the bar was built with.
    pub closed spec fn spec_total(&self) -> usize {
        self.total
    }

    /// The bar's own finished flag (set by its handle's `finish`, or by an earlier draw under
    /// finished parameters) as the last draw found it.
    pub closed spec fn spec_finished_seen(&self) -> bool {
        self.finished_seen@
    }

    /// The bar's own aborted flag (set by an earlier draw under aborted parameters) as the last
    /// draw found it.
    pub closed spec fn spec_aborted_seen(&self) -> bool {
        self.aborted_seen@
    }

    /// What a draw does: `line` is the bar's line for its total and some progress read from the
    /// shared state, with the bar's own flags as the draw found them (`after`'s) joined with the
    /// parameters' marks; a looping bar that is not aborted moves its window on.
    pub open spec fn drew(
        before: BoringBarDrawer,
        after: BoringBarDrawer,
        params: BarDrawParams,
        line: Seq<char>,
    ) -> bool {
        &&& after.spec_name() == before.spec_name()
        &&& after.spec_total() == before.spec_total()
        &&& exists|current: usize, finished: bool, aborted: bool|
            {
                &&& finished == (after.spec_finished_seen() || params.spec_finished())
                &&& aborted == (after.spec_aborted_seen() || params.spec_aborted())
                &&& line == #[trigger] boring_line(
                    before.spec_name(),
                    before.spec_draws(),
                    before.spec_total(),
                    current,
                    finished,
                    aborted,
                )
                &&& after.spec_draws() == boring_next_draws(
                    before.spec_draws(),
                    before.spec_total(),
                    aborted,
                )
            }
    }
}

impl BarDraw for BoringBarDrawer {
    /// The line is the bar's line for its total and some progress read from the shared state,
    /// with the parameters' finished and aborted marks added to the bar's own.
    open spec fn draws_line(&self, params: BarDrawParams, line: Seq<char>) -> bool {
        exists|current: usize, finished: bool, aborted: bool|
            (finished || !params.spec_finished()) && (aborted || !params.spec_aborted()) && line
                == #[trigger] boring_line(
                self.spec_name(),
                self.spec_draws(),
                self.spec_total(),
                current,
                finished,
                aborted,
            )
    }

    fn is_finished(&self) -> bool {
        self.state.finished.load(Ordering::Acquire)
    }

    /// Draws the bar from its total and the shared progress; the finished and aborted marks of
    /// the parameters stick to the bar.
    fn draw(&mut self, params: &BarDrawParams) -> (line: String)
        ensures
            BoringBarDrawer::drew(*old(self), *final(self), *params, line@),
    {
        let total = self.total;
        let current = self.state.current.load(Ordering::Acquire);
        let was_finished = self.state.finished.fetch_or(params.finished(), Ordering::Acquire);
        let was_aborted = self.state.aborted.fetch_or(params.aborted(), Ordering::Acquire);
        self.finished_seen = Ghost(was_finished);
        self.aborted_seen = Ghost(was_aborted);
        let finished = was_finished || params.finished();
        let aborted = was_aborted || params.aborted();
        let (line, draws) = boring_bar_line(
            self.name.as_str(),
            self.draws,
            total,
            current,
            finished,
            aborted,
        );
        self.draws = draws;
        assert(line@ == boring_line(
            old(self).spec_name(),
            old(self).spec_draws(),
            old(self).spec_total(),
            current,
            finished,
            aborted,
        ));
        line
    }
}

struct BrailleState {
    current: AtomicUsize,
    done: AtomicBool,
    aborted: AtomicBool,
}

/// A handle to the braille bar that can used to update the progress of the bar.
#[derive(Clone)]
pub struct BrailleHandle {
    state: Arc<BrailleState>,
    multibar: BarState,
}

/// The handle used to update the progress bar.
impl BrailleHandle {
    /// Increment the progress by 1 (wrapping, as the shared counter does). Gives, as a ghost, the
    /// progress the shared counter held and the progress it holds now.
    pub fn tick(&self) -> (step: Ghost<(usize, usize)>)
        ensures
            step@.1 == wrapped_sum(step@.0, 1),
    {
        let by: usize = 1;
        let found = self.state.current.fetch_add(by, Ordering::Release);
        self.multibar.redraw();
        Ghost((found, wrapped_sum(found, by)))
    }

    /// Finish rendering the bar. It will be redrawn once more and never again.
    pub fn finish(&self) {
        self.state.done.store(true, Ordering::Release);
        self.multibar.redraw()
    }

    /// Abort the bar. It will be redrawn once more, in red, and never again.
    pub fn abort(&self) {
        self.state.aborted.store(true, Ordering::Release);
        self.multibar.redraw()
    }
}

/// Text shown after the name of a braille bar with a total, made from the progress and the
/// total.
pub trait ProgressText: Send + Sync {
    /// Whether `text` is a text this maker, as it stands, gives for `current` and `total`.
    spec fn gives(&self, current: usize, total: usize, text: Seq<char>) -> bool;

    fn progress_text(&mut self, current: usize, total: usize) -> (r: String)
        ensures
            old(self).gives(current, total, r@),
    ;
}

impl<F: FnMut(usize, usize) -> String + Send + Sync> ProgressText for F {
    /// The texts the closure may return for these arguments.
    open spec fn gives(&self, current: usize, total: usize, text: Seq<char>) -> bool {
        exists|s: String| s@ == text && #[trigger] call_ensures(*self, (current, total), s)
    }

    /// The text the closure makes from the progress and the total.
    fn progress_text(&mut self, current: usize, total: usize) -> (r: String)
        ensures
            call_ensures(*old(self), (current, total), r),
    {
        call_text(self, current, total)
    }
}

/// A builder for the braille bar: a name, a total (`0` for a spinner) and, optionally, the
/// text shown after the name.
pub struct BrailleBuilder {
    name: String,
    total: usize,
    text: Option<Box<dyn ProgressText>>,
}

impl BrailleBuilder {
    /// A progress bar with the total size. If the total is 0, progress will be shown as a
    /// spinner.
    pub fn new(name: String, total: usize) -> (b: BrailleBuilder)
        ensures
            b.spec_name() == name@,
            b.spec_total() == total,
            !b.spec_has_text(),
    {
        BrailleBuilder { name, total, text: None }
    }

    /// Show the text that `f` makes from the progress and the total in place of the
    /// percentage.
    pub fn with_text<F: FnMut(usize, usize) -> String + Send + Sync + 'static>(
        &mut self,
        f: Box<F>,
    )
        ensures
            final(self).spec_name() == old(self).spec_name(),
            final(self).spec_total() == old(self).spec_total(),
            final(self).spec_has_text(),
            final(self).spec_text() matches Some(t) && forall|c: usize, n: usize, x: Seq<char>|
                #[trigger] t.gives(c, n, x) == (*f).gives(c, n, x),
    {
        self.text = Some(f)
    }

    /// The name of the bar to build.
    pub closed spec fn spec_name(&self) -> Seq<char> {
        self.name@
    }

    /// The total of the bar to build.
    pub closed spec fn spec_total(&self) -> usize {
        self.total
    }

    /// Whether the bar shows a caller's text in place of the percentage.
    pub closed spec fn spec_has_text(&self) -> bool {
        self.text is Some
    }

    /// The maker of the caller's text, if any.
    pub closed spec fn spec_text(&self) -> Option<Box<dyn ProgressText>> {
        self.text
    }
}

impl BarBuild for BrailleBuilder {
    type Handle = BrailleHandle;

    type Drawer = BrailleDrawer;

    fn build(self, multibar: BarState) -> (r: (BrailleHandle, BrailleDrawer))
        ensures
            r.1.spec_name() == self.spec_name(),
            r.1.spec_total() == self.spec_total(),
            r.1.spec_draws() == 0,
            r.1.spec_last_ticker() == 0,
            r.1.spec_spinner() == 0,
            r.1.spec_has_text() == self.spec_has_text(),
            r.1.spec_text() == self.spec_text(),
            !r.1.spec_done_seen(),
            !r.1.spec_aborted_seen(),
    {
        let state = Arc::new(
            BrailleState {
                current: AtomicUsize::new(0),
                done: AtomicBool::new(false),
                aborted: AtomicBool::new(false),
            },
        );
        let handle = BrailleHandle { state: arc_clone(&state), multibar };
        let drawer = BrailleDrawer {
            name: self.name,
            total: self.total,
            draws: 0,
            last_ticker: 0,
            state,
            spinner: 0,
            text: self.text,
            done_seen: Ghost(false),
            aborted_seen: Ghost(false),
        };
        (handle, drawer)
    }
}

/// The drawer of a braille bar, kept by the multibar.
pub struct BrailleDrawer {
    name: String,
    /// The total the bar was built with; `0` for a spinner.
    total: usize,
    draws: usize,
    last_ticker: usize,
    state: Arc<BrailleState>,
    /// Position of the spinner glyph shown.
    spinner: usize,
    text: Option<Box<dyn ProgressText>>,
    /// The bar's done flag as the last draw found it.
    done_seen: Ghost<bool>,
    /// The bar's aborted flag as the last draw found it.
    aborted_seen: Ghost<bool>,
}

impl BrailleDrawer {
    /// The name the bar shows.
    pub closed spec fn spec_name(&self) -> Seq<char> {
        self.name@
    }

    /// How many changes of the progress the bar has seen.
    pub closed spec fn spec_draws(&self) -> usize {
        self.draws
    }

    /// The total the bar was built with.
    pub closed spec fn spec_total(&self) -> usize {
        self.total
    }

    /// The progress the bar saw last.
    pub closed spec fn spec_last_ticker(&self) -> usize {
        self.last_ticker
    }

    /// Position of the spinner glyph shown.
    pub closed spec fn spec_spinner(&self) -> usize {
        self.spinner
    }

    /// Whether the bar shows a caller's text in place of the percentage.
    pub closed spec fn spec_has_text(&self) -> bool {
        self.text is Some
    }

    /// The maker of the caller's text, if any.
    pub closed spec fn spec_text(&self) -> Option<Box<dyn ProgressText>> {
        self.text
    }

    /// The bar's own done flag (set by its handle's `finish`, or by an earlier draw under
    /// finished parameters) as the last draw found it.
    pub closed spec fn spec_done_seen(&self) -> bool {
        self.done_seen@
    }

    /// The bar's own aborted flag (set by its handle's `abort`, or by an earlier draw under
    /// aborted parameters) as the last draw found it.
    pub closed spec fn spec_aborted_seen(&self) -> bool {
        self.aborted_seen@
    }

    /// What a draw does: `line` is the bar's line for its total and some progress read from the
    /// shared state, with the bar's own flags as the draw found them (`after`'s) joined with the
    /// parameters' marks, and the counters moved on by that progress.
    pub open spec fn drew(
        before: BrailleDrawer,
        after: BrailleDrawer,
        params: BarDrawParams,
        line: Seq<char>,
    ) -> bool {
        &&& after.spec_name() == before.spec_name()
        &&& after.spec_has_text() == before.spec_has_text()
        &&& after.spec_total() == before.spec_total()
        &&& exists|current: usize, text: Option<Seq<char>>, finished: bool, aborted: bool|
            {
                &&& finished == (after.spec_done_seen() || params.spec_finished())
                &&& aborted == (after.spec_aborted_seen() || params.spec_aborted())
                &&& #[trigger] before.line_outcome(
                    params,
                    current,
                    before.spec_total(),
                    finished,
                    aborted,
                    text,
                    line,
                )
                &&& (after.spec_draws(), after.spec_last_ticker(), after.spec_spinner())
                    == braille_step(
                    before.spec_draws(),
                    before.spec_last_ticker(),
                    before.spec_spinner(),
                    current,
                    before.spec_total(),
                )
            }
    }

    /// Whether `line` is what a draw gives when it reads `current` and `total`, ends up with
    /// the marks `finished` and `aborted`, and shows `text` in place of the percentage: the
    /// marks include the parameters', the caller's text is shown exactly when there is a maker
    /// and a total, and it is one the maker gives for the progress and the total.
    pub open spec fn line_outcome(
        &self,
        params: BarDrawParams,
        current: usize,
        total: usize,
        finished: bool,
        aborted: bool,
        text: Option<Seq<char>>,
        line: Seq<char>,
    ) -> bool {
        &&& finished || !params.spec_finished()
        &&& aborted || !params.spec_aborted()
        &&& (text is Some <==> self.spec_has_text() && total != 0)
        &&& (text matches Some(t) ==> self.spec_text() matches Some(f) && f.gives(current, total, t))
        &&& line == braille_line_spec(
            self.spec_name(),
            braille_step(
                self.spec_draws(),
                self.spec_last_ticker(),
                self.spec_spinner(),
                current,
                total,
            ).2,
            current,
            total,
            finished,
            aborted,
            text,
        )
    }
}

impl BarDraw for BrailleDrawer {
    /// The line is the bar's line for its total and some progress read from the shared state
    /// (the counters moved on first), with the parameters' finished and aborted marks added to
    /// the bar's own, and the caller's text, when shown, one that the text maker gives.
    open spec fn draws_line(&self, params: BarDrawParams, line: Seq<char>) -> bool {
        exists|current: usize, finished: bool, aborted: bool, text: Option<Seq<char>>|
            #[trigger] self.line_outcome(
                params,
                current,
                self.spec_total(),
                finished,
                aborted,
                text,
                line,
            )
    }

    /// Finished once its handle finished or aborted it.
    fn is_finished(&self) -> bool {
        self.state.done.load(Ordering::Acquire) || self.state.aborted.load(Ordering::Acquire)
    }

    /// Draws the bar from its total and the shared progress; a change of the progress moves the
    /// counters on first. The finished and aborted marks of the parameters stick to the bar.
    fn draw(&mut self, params: &BarDrawParams) -> (line: String)
        ensures
            BrailleDrawer::drew(*old(self), *final(self), *params, line@),
    {
        let current = self.state.current.load(Ordering::Acquire);
        let total = self.total;
        let was_finished = self.state.done.fetch_or(params.finished(), Ordering::Acquire);
        let was_aborted = self.state.aborted.fetch_or(params.aborted(), Ordering::Acquire);
        self.done_seen = Ghost(was_finished);
        self.aborted_seen = Ghost(was_aborted);
        let finished = was_finished || params.finished();
        let aborted = was_aborted || params.aborted();
        let spinner = self.spinner % SPINNER_LEN;
        self.spinner = spinner;
        if self.last_ticker != current {
            self.last_ticker = current;
            self.draws = if self.draws < usize::MAX {
                self.draws + 1
            } else {
                0
            };
            if total == 0 && self.draws % 2 == 0 {
                self.spinner = (spinner + 1) % SPINNER_LEN;
            }
        }
        let text = if total != 0 {
            match &mut self.text {
                Some(f) => Some(f.progress_text(current, total)),
                None => None,
            }
        } else {
            None
        };
        let ghost text_view = match &text {
            Some(t) => Some(t@),
            None => None,
        };
        let line = braille_line(self.name.as_str(), self.spinner, current, total, finished, aborted, text);
        assert(line@ == braille_line_spec(
            old(self).spec_name(),
            braille_step(
                old(self).spec_draws(),
                old(self).spec_last_ticker(),
                old(self).spec_spinner(),
                current,
                old(self).spec_total(),
            ).2,
            current,
            old(self).spec_total(),
            finished,
            aborted,
            text_view,
        ));
        assert(old(self).line_outcome(
            *params,
            current,
            old(self).spec_total(),
            finished,
            aborted,
            text_view,
            line@,
        ));
        line
    }
}

/// A looping boring bar that found its finished flag set (its handle finished it) and was not
/// aborted draws its whole bar green whatever the parameters' finished mark: the name, sixty
/// green cells, then the progress.
pub proof fn law_finished_loop_bar_is_full(
    before: BoringBarDrawer,
    after: BoringBarDrawer,
    params: BarDrawParams,
    line: Seq<char>,
)
    requires
        BoringBarDrawer::drew(before, after, params, line),
        before.spec_total() == 0,
        after.spec_finished_seen(),
        !after.spec_aborted_seen(),
        !params.spec_aborted(),
    ensures
        exists|current: usize|
            line == pad_left(before.spec_name(), NAME_WIDTH as nat) + " "@ + GREEN@ + repeat(
                "="@,
                BAR_CELLS as nat,
            ) + CLEAR@ + " "@ + decimal(current as nat) + END_LINE@,
{
    let (current, finished, aborted) = choose|current: usize, finished: bool, aborted: bool|
        {
            &&& finished == (after.spec_finished_seen() || params.spec_finished())
            &&& aborted == (after.spec_aborted_seen() || params.spec_aborted())
            &&& line == #[trigger] boring_line(
                before.spec_name(),
                before.spec_draws(),
                before.spec_total(),
                current,
                finished,
                aborted,
            )
            &&& after.spec_draws() == boring_next_draws(
                before.spec_draws(),
                before.spec_total(),
                aborted,
            )
        };
    assert(line == pad_left(before.spec_name(), NAME_WIDTH as nat) + " "@ + GREEN@ + repeat(
        "="@,
        BAR_CELLS as nat,
    ) + CLEAR@ + " "@ + decimal(current as nat) + END_LINE@);
}

/// A braille bar that found its done flag set (its handle finished it) and was not aborted draws
/// the finished line whatever the parameters' finished mark: it is green, and without a total it
/// shows the full glyph before the name.
pub proof fn law_done_braille_draws_finished(
    before: BrailleDrawer,
    after: BrailleDrawer,
    params: BarDrawParams,
    line: Seq<char>,
)
    requires
        BrailleDrawer::drew(before, after, params, line),
        after.spec_done_seen(),
        !after.spec_aborted_seen(),
        !params.spec_aborted(),
    ensures
        GREEN@.is_prefix_of(line),
        before.spec_total() == 0 ==> line == GREEN@ + seq![full_glyph()] + CLEAR@ + " "@
            + before.spec_name() + END_LINE@,
{
    let (current, text, finished, aborted) = choose|
        current: usize,
        text: Option<Seq<char>>,
        finished: bool,
        aborted: bool,
    |
        {
            &&& finished == (after.spec_done_seen() || params.spec_finished())
            &&& aborted == (after.spec_aborted_seen() || params.spec_aborted())
            &&& #[trigger] before.line_outcome(
                params,
                current,
                before.spec_total(),
                finished,
                aborted,
                text,
                line,
            )
            &&& (after.spec_draws(), after.spec_last_ticker(), after.spec_spinner()) == braille_step(
                before.spec_draws(),
                before.spec_last_ticker(),
                before.spec_spinner(),
                current,
                before.spec_total(),
            )
        };
    let rest = if before.spec_total() == 0 {
        seq![full_glyph()] + CLEAR@ + " "@ + before.spec_name() + END_LINE@
    } else {
        seq![progress_glyph(current as nat, before.spec_total() as nat)] + CLEAR@ + " "@
            + before.spec_name() + " "@ + match text {
            Some(t) => t,
            None => percent_text(current as nat, before.spec_total() as nat),
        } + END_LINE@
    };
    assert(line =~= GREEN@ + rest);
    assert(GREEN@ =~= line.subrange(0, GREEN@.len() as int));
}

} // verus!
