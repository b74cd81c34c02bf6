//! Asynchronous multi-line progress bars for the terminal.
//!
//! `multi_bar` gives a handle, through which bars are added and controlled, and the runner
//! that redraws them. Each redraw moves the cursor back over the previous frame and writes
//! one line per bar; finished bars are written once more and then left behind.
use vstd::prelude::*;
use core::sync::atomic::{AtomicBool, AtomicUsize, Ordering};
use futures::channel::mpsc;
use futures::task::AtomicWaker;
use futures_timer::Delay;
use std::sync::Arc;
use std::task::Context;

pub mod draw;
pub mod field;
pub mod frame;
pub mod render;
mod outside;
pub mod text;

use crate::field::{finished_in, BarStateField};
use crate::frame::{
    frame_text, height_of, kept, law_split_keeps_every_bar, lemma_fresh_ids, lemma_kept_contains,
    lemma_kept_map, lemma_split_ids, max_height, render_frame, retire_flagged, views,
};
use crate::outside::{
    arc_clone, atomic_waker_new, atomic_waker_register, atomic_waker_wake, channel,
    context_waker, delay_new, delay_poll, delay_reset, millis, terminal_dimensions, try_next,
    try_next_unbounded, try_send, unbounded, unbounded_send, Received,
};

verus! {

/// Milliseconds the runner waits after a redraw before it draws again.
pub const REDRAW_DELAY_MS: u64 = 41;

/// Bars that can wait in the channel to the runner before `add_bar` is refused.
pub const BAR_CHANNEL_BUFFER: usize = 128;

/// Shared state between a bar's handle and the runner.
#[derive(Debug)]
struct BarStateInner {
    field: AtomicUsize,
    mbs: Arc<MultiBarState>,
}

/// The link from one bar to the multibar that draws it.
#[derive(Debug, Clone)]
pub struct BarState {
    inner: Arc<BarStateInner>,
}

impl BarState {
    /// The shared state of the multibar this bar belongs to.
    pub closed spec fn spec_multibar(&self) -> MultiBarState {
        *(*self.inner).mbs
    }

    fn new(mbs: Arc<MultiBarState>) -> (r: BarState)
        ensures
            r.spec_multibar() == *mbs,
    {
        BarState { inner: Arc::new(BarStateInner { field: AtomicUsize::new(0), mbs }) }
    }

    fn update(&self, field: BarStateField) {
        let bits = field.bits();
        self.inner.field.fetch_or(bits, Ordering::Release);
        self.inner.mbs.changed.store(true, Ordering::Release);
        atomic_waker_wake(&self.inner.mbs.waker);
    }

    /// Finish the bar. It will be redrawn once more (assuming the multi bar gets polled again)
    /// and never again.
    pub fn finish(&self) {
        let mut field = BarStateField::new();
        field.set_finished(true);
        self.update(field)
    }

    /// Mark the bar as being needed to be redrawn.
    pub fn redraw(&self) {
        self.inner.mbs.changed.store(true, Ordering::Release);
        atomic_waker_wake(&self.inner.mbs.waker);
    }

    /// Whether `finish` has been called on this bar (or a clone of its link).
    fn finish_requested(&self) -> bool {
        finished_in(self.inner.field.load(Ordering::Acquire))
    }
}

/// A builder of a bar: given the bar's link to the multibar it makes the handle that the
/// caller keeps and the drawer that the multibar keeps.
pub trait BarBuild {
    type Handle;

    type Drawer: BarDraw;

    /// Build the bar given a handle for that bar. The `BarState` will typically be stored in
    /// the `Handle`.
    fn build(self, multibar: BarState) -> (Self::Handle, Self::Drawer);
}

/// Parameters from the handler.
pub struct BarDrawParams {
    aborted: bool,
    finished: bool,
}

impl BarDrawParams {
    /// Parameters of a draw: whether the bars were aborted, whether the multibar is finished.
    pub fn new(aborted: bool, finished: bool) -> (p: BarDrawParams)
        ensures
            p.spec_aborted() == aborted,
            p.spec_finished() == finished,
    {
        BarDrawParams { aborted, finished }
    }

    /// The parameters with these two marks.
    pub closed spec fn spec_new(aborted: bool, finished: bool) -> BarDrawParams {
        BarDrawParams { aborted, finished }
    }

    /// Whether the bar has been aborted by the handler.
    pub closed spec fn spec_aborted(&self) -> bool {
        self.aborted
    }

    /// Whether the bar has been finished by the handler.
    pub closed spec fn spec_finished(&self) -> bool {
        self.finished
    }

    /// Has this bar been aborted by the handler?
    pub fn aborted(&self) -> (b: bool)
        ensures
            b == self.spec_aborted(),
    {
        self.aborted
    }

    /// Has this bar been finished by the handler?
    pub fn finished(&self) -> (b: bool)
        ensures
            b == self.spec_finished(),
    {
        self.finished
    }
}

/// A bar that knows how to draw itself. The bar is stored in the multibar runner, which calls
/// `draw` when necessary.
pub trait BarDraw: Send {
    /// Whether `line` is a line this bar, as it stands, may draw under `params`; a bar that says
    /// nothing of its lines may draw any.
    open spec fn draws_line(&self, params: BarDrawParams, line: Seq<char>) -> bool {
        true
    }

    fn is_finished(&self) -> bool;

    /// Draw the bar in its current state. The bar should only take a single line.
    fn draw(&mut self, params: &BarDrawParams) -> (line: String)
        ensures
            old(self).draws_line(*params, line@),
    ;

    /// This multibar handle has canceled all current progress bars. This can be used to change
    /// the state of the bar so that the next time it's drawn it might look different (has
    /// default implementation to do nothing).
    fn cancel(&mut self) {
    }
}

/// A bar as the runner keeps it: its drawer, and the link through which `BarState::finish`
/// retires it.
struct LinkedBar {
    bar: Box<dyn BarDraw>,
    link: BarState,
}

impl BarDraw for LinkedBar {
    /// The lines of the drawer.
    closed spec fn draws_line(&self, params: BarDrawParams, line: Seq<char>) -> bool {
        self.bar.draws_line(params, line)
    }

    /// Finished when its link asked for it, or when the drawer says so.
    fn is_finished(&self) -> bool {
        self.link.finish_requested() || self.bar.is_finished()
    }

    fn draw(&mut self, params: &BarDrawParams) -> (line: String) {
        self.bar.draw(params)
    }

    fn cancel(&mut self) {
        self.bar.cancel()
    }
}

struct WhenDoneInner {
    done: AtomicBool,
    waker: AtomicWaker,
}

/// Resolves once the multibar has handled the state it had when this was created (a redraw
/// has happened).
pub struct WhenDone {
    inner: Arc<WhenDoneInner>,
}

impl WhenDone {
    fn new() -> (r: (WhenDone, WhenDone))
        ensures
            r.0.inner == r.1.inner,
    {
        let inner = Arc::new(WhenDoneInner { done: AtomicBool::new(false), waker: atomic_waker_new() });
        (WhenDone { inner: arc_clone(&inner) }, WhenDone { inner })
    }

    /// Tells the waiting party that the redraw happened; gives, as a ghost, the party told.
    fn done(&self) -> (told: Ghost<WhenDone>)
        ensures
            told@ == *self,
    {
        self.inner.done.store(true, Ordering::Release);
        atomic_waker_wake(&self.inner.waker);
        Ghost(*self)
    }

    /// One poll of the waiting task: registers the task to be woken and says whether the redraw
    /// has happened.
    pub fn poll_ready(&self, cx: &Context) -> bool {
        atomic_waker_register(&self.inner.waker, context_waker(cx));
        self.inner.done.load(Ordering::Acquire)
    }
}

/// Shared state between the handle and runner.
#[derive(Debug)]
pub struct MultiBarState {
    /// A signal that the multibar can finish on the next call to poll.
    done: AtomicBool,
    /// A signal the progress bar state has changed and we should redraw.
    changed: AtomicBool,
    /// All currently active bars are considered finished. They will be drawn once more and
    /// never again.
    abort_active: AtomicBool,
    /// Stop drawing the progress bar, can be resumed later.
    stop: AtomicBool,
    /// Reference to our own waker so we can register new wakers.
    waker: AtomicWaker,
}

/// The handle through which bars are added to a multibar and the multibar is controlled.
#[derive(Clone)]
pub struct MultiBarHandle {
    bar_sender: mpsc::Sender<Box<dyn BarDraw>>,
    when_done_sender: mpsc::UnboundedSender<WhenDone>,
    state: Arc<MultiBarState>,
}

impl MultiBarHandle {
    /// The shared state that this handle controls.
    pub closed spec fn spec_state(&self) -> MultiBarState {
        *self.state
    }

    /// Build a bar and hand its drawer to the runner; the caller gets the bar's handle. Fails,
    /// giving the drawer back, when the runner's channel is full or the runner is gone.
    pub fn add_bar<B: BarBuild + 'static>(&mut self, builder: B) -> Result<
        B::Handle,
        mpsc::TrySendError<Box<dyn BarDraw>>,
    > {
        let bar_state = BarState::new(arc_clone(&self.state));
        let link = BarState { inner: arc_clone(&bar_state.inner) };
        let (handle, drawer) = builder.build(bar_state);
        let inner: Box<dyn BarDraw> = Box::new(drawer);
        let boxed: Box<dyn BarDraw> = Box::new(LinkedBar { bar: inner, link });
        match try_send(&mut self.bar_sender, boxed) {
            Ok(()) => Ok(handle),
            Err(e) => Err(e),
        }
    }

    /// Stop the multibar from rendering any more. Rendering may be resumed by `resume`.
    pub fn stop(&self) {
        self.state.stop.store(true, Ordering::Release);
        atomic_waker_wake(&self.state.waker);
    }

    /// Resume multibar rendering.
    pub fn resume(&self) {
        self.state.stop.store(false, Ordering::Release);
        atomic_waker_wake(&self.state.waker);
    }

    /// Inform the multibar that it is done. It will render once more and then the runner
    /// will report that it is ready.
    pub fn finish(&self) {
        self.state.done.store(true, Ordering::Release);
        atomic_waker_wake(&self.state.waker);
    }

    /// Check if the multibar has been marked as finished (via `finish`).
    pub fn is_finished(&self) -> bool {
        self.state.done.load(Ordering::Acquire)
    }

    /// All currently loaded bars will be marked as aborted. Bars may be rendered differently
    /// when aborted. This is useful for when the work the multibar is tracking is interrupted.
    pub fn abort_active(&self) {
        self.state.abort_active.store(true, Ordering::Release);
        atomic_waker_wake(&self.state.waker);
    }

    /// Wait until a render at the current state (or a later state) has been performed.
    /// Returns `None` if the runner has been dropped.
    pub fn wait(&mut self) -> Option<WhenDone> {
        let (future, when_done) = WhenDone::new();
        if unbounded_send(&self.when_done_sender, when_done) {
            atomic_waker_wake(&self.state.waker);
            Some(future)
        } else {
            None
        }
    }
}

/// A new multibar: the handle that controls it and the runner that draws it.
pub fn multi_bar() -> (r: (MultiBarHandle, MultiBarFuture))
    ensures
        r.1.is_fresh(),
        r.1.wf(),
        r.0.spec_state() == r.1.spec_state(),
{
    let (bar_sender, bar_receiver) = channel(BAR_CHANNEL_BUFFER);
    let (when_done_sender, when_done_receiver) = unbounded();
    let shared_state = Arc::new(
        MultiBarState {
            done: AtomicBool::new(false),
            changed: AtomicBool::new(false),
            abort_active: AtomicBool::new(false),
            stop: AtomicBool::new(false),
            waker: atomic_waker_new(),
        },
    );
    let handle = MultiBarHandle { when_done_sender, bar_sender, state: arc_clone(&shared_state) };
    let future = MultiBarFuture {
        state: shared_state,
        bar_receiver,
        when_done_receiver,
        waiting_delay: false,
        delay: delay_new(millis(REDRAW_DELAY_MS)),
        finished_bars: Vec::new(),
        active_bars: Vec::new(),
        next_id: Ghost(0),
        told: Ghost(Seq::empty()),
        prev_num_bars: 0,
        bar_receiver_finished: false,
        done_receiver_finished: false,
        stopped: false,
    };
    (handle, future)
}

/// A bar on the runner's stack, with the identity the runner gave it when it arrived.
struct Slot {
    bar: Box<dyn BarDraw>,
    id: Ghost<nat>,
}

/// The bars of a stack.
spec fn bars_of(s: Seq<Slot>) -> Seq<Box<dyn BarDraw>> {
    s.map_values(|x: Slot| x.bar)
}

/// The identities of a stack.
spec fn ids_of(s: Seq<Slot>) -> Seq<nat> {
    s.map_values(|x: Slot| x.id@)
}

proof fn lemma_map_concat<T, U>(a: Seq<T>, b: Seq<T>, f: spec_fn(T) -> U)
    ensures
        (a + b).map_values(f) == a.map_values(f) + b.map_values(f),
{
    assert((a + b).map_values(f) =~= a.map_values(f) + b.map_values(f));
}

/// The runner of a multibar: it keeps the bars and redraws them when they change.
pub struct MultiBarFuture {
    state: Arc<MultiBarState>,
    /// We're waiting on the delay before attempting to do any redrawing.
    waiting_delay: bool,
    /// Receiver of new progress bars to add.
    bar_receiver: mpsc::Receiver<Box<dyn BarDraw>>,
    /// Notify interested parties when a render has occurred.
    when_done_receiver: mpsc::UnboundedReceiver<WhenDone>,
    /// A delay to prevent redrawing too fast.
    delay: Delay,
    /// Bars that finished since the last frame; drawn once more, then dropped.
    finished_bars: Vec<Slot>,
    /// Current stack of progress bars to draw.
    active_bars: Vec<Slot>,
    /// The identity the next bar taken from the channel gets.
    next_id: Ghost<nat>,
    /// The waiting parties told of a redraw so far, in the order they were told.
    told: Ghost<Seq<WhenDone>>,
    /// The number of bars we drew last time (so we know how many lines to clear before
    /// redrawing).
    prev_num_bars: usize,
    bar_receiver_finished: bool,
    done_receiver_finished: bool,
    stopped: bool,
}

/// What the first half of a poll found and drew. The frame, if any, is to be written to the
/// terminal before the poll is completed with `MultiBarFuture::poll_end`.
pub struct PollRender {
    /// The text to write to standard error; `None` when no bar was drawn.
    pub frame: Option<String>,
    /// Parties waiting for a redraw, to be told after the frame is written.
    pub waiters: Vec<WhenDone>,
    /// The multibar was marked done: this poll completes the runner.
    pub done: bool,
    /// The bars were redrawn in this poll.
    pub rendered: bool,
    /// The bars were aborted in this poll.
    pub aborted: bool,
    /// The number of lines in the frame.
    pub drawn: usize,
    /// What the redraw timer answered, when the runner waited on it.
    pub timer_fired: Ghost<bool>,
    /// The stop flag as read.
    pub stop_seen: Ghost<bool>,
    /// A change was signalled, and its flag taken, in this poll.
    pub change_taken: Ghost<bool>,
    /// The done flag as read again before new bars are taken.
    pub done_again: Ghost<bool>,
    /// This poll left the change flag clear when it took it.
    pub change_cleared: Ghost<bool>,
    /// This poll left the abort flag clear when it took it.
    pub abort_cleared: Ghost<bool>,
    /// The bar channel was read in this poll, until it reported empty or closed.
    pub bars_read: Ghost<bool>,
    /// A read of the bar channel in this poll reported it closed.
    pub bars_closed: Ghost<bool>,
    /// How many bars the reads of the bar channel gave in this poll.
    pub bars_received: Ghost<nat>,
    /// A read of the waiter channel in this poll reported it closed.
    pub waiters_closed: Ghost<bool>,
    /// The waiting parties the reads of the waiter channel gave in this poll, as they came.
    pub waiters_read: Ghost<Seq<WhenDone>>,
    /// An abort was signalled, and its flag taken, in this poll.
    pub abort_taken: Ghost<bool>,
    /// The bars that arrived from the handles in this poll.
    pub added: Ghost<Seq<Box<dyn BarDraw>>>,
    /// The identities the runner gave the bars that arrived.
    pub added_ids: Ghost<Seq<nat>>,
    /// Which of the bars (old ones first, then the new ones) reported themselves finished.
    pub flags: Ghost<Seq<bool>>,
    /// The bars drawn for the last time in this poll, as they stood before drawing.
    pub retired: Ghost<Seq<Box<dyn BarDraw>>>,
    /// The identities of the bars drawn for the last time.
    pub retired_ids: Ghost<Seq<nat>>,
    /// The bars that stay on the stack, as they stood before drawing.
    pub survivors: Ghost<Seq<Box<dyn BarDraw>>>,
    /// The terminal's width and height as asked for this frame.
    pub dims: Ghost<Option<(usize, usize)>>,
    /// The lines the bars drew, retired bars first.
    pub lines: Ghost<Seq<Seq<char>>>,
}

proof fn lemma_concat_empty<T>(a: Seq<T>)
    ensures
        a + Seq::<T>::empty() == a,
{
    assert(a + Seq::<T>::empty() =~= a);
}

proof fn lemma_concat_assoc<T>(a: Seq<T>, b: Seq<T>, c: Seq<T>)
    ensures
        a + (b + c) == (a + b) + c,
{
    assert(a + (b + c) =~= (a + b) + c);
}

proof fn lemma_prefix_split<T>(s: Seq<T>, start: Seq<T>)
    requires
        start.len() <= s.len(),
        forall|i: int| 0 <= i < start.len() ==> #[trigger] s[i] == start[i],
    ensures
        s == start + s.skip(start.len() as int),
{
    assert(s =~= start + s.skip(start.len() as int));
}

proof fn lemma_skip_index<T>(s: Seq<T>, n: int)
    requires
        0 <= n <= s.len(),
    ensures
        s.skip(n).len() == s.len() - n,
        forall|k: int| 0 <= k < s.len() - n ==> #[trigger] s.skip(n)[k] == s[n + k],
{
}

proof fn lemma_push_index<T>(s: Seq<T>, x: T)
    ensures
        s.push(x).len() == s.len() + 1,
        s.push(x)[s.len() as int] == x,
        forall|k: int| 0 <= k < s.len() ==> #[trigger] s.push(x)[k] == s[k],
{
}

/// Takes a shared flag with a `compare_exchange` from `true` to `false`: whether it was set,
/// and, as a ghost, the value the call left in the flag: the `false` it wrote when the flag was
/// set, else the value it found.
fn take_flag(flag: &AtomicBool) -> (r: (bool, Ghost<bool>))
    ensures
        r.0 ==> !r.1@,
{
    match flag.compare_exchange(true, false, Ordering::AcqRel, Ordering::Acquire) {
        Ok(_) => (true, Ghost(false)),
        Err(found) => (false, Ghost(found)),
    }
}

/// Asks each bar whether it has finished.
fn finished_flags(bars: &Vec<Slot>) -> (flags: Vec<bool>)
    ensures
        flags.len() == bars.len(),
{
    let mut flags: Vec<bool> = Vec::new();
    let mut i: usize = 0;
    while i < bars.len()
        invariant
            i <= bars.len(),
            flags.len() == i,
        decreases bars.len() - i,
    {
        flags.push(bars[i].bar.is_finished());
        i = i + 1;
    }
    flags
}

/// Draws the newly finished bars, then the active ones, into one frame. Returns the frame
/// (`None` when there is no bar at all), the number of lines, and as ghosts the height limit
/// and the lines.
fn draw_bars(
    active_bars: &mut Vec<Slot>,
    newly_finished_bars: &mut Vec<Slot>,
    prev_num_bars: usize,
    params: &BarDrawParams,
) -> (r: (Option<String>, usize, Ghost<Option<(usize, usize)>>, Ghost<Seq<Seq<char>>>))
    ensures
        ids_of(final(active_bars)@) == ids_of(old(active_bars)@),
        ids_of(final(newly_finished_bars)@) == ids_of(old(newly_finished_bars)@),
        r.1 == old(newly_finished_bars).len() + old(active_bars).len(),
        r.3@.len() == r.1,
        r.0 is None <==> r.1 == 0,
        r.0 matches Some(s) ==> {
            &&& (r.2@ matches Some((w, h)) ==> 0 < w <= 65535 && 0 < h <= 65535)
            &&& s@ == frame_text(prev_num_bars as nat, height_of(r.2@), r.3@)
        },
        forall|k: int|
            0 <= k < old(newly_finished_bars).len() ==> #[trigger] old(
                newly_finished_bars,
            )@[k].bar.draws_line(*params, r.3@[k]),
        forall|k: int|
            0 <= k < old(active_bars).len() ==> #[trigger] old(active_bars)@[k].bar.draws_line(
                *params,
                r.3@[old(newly_finished_bars).len() + k],
            ),
{
    if active_bars.len() == 0 && newly_finished_bars.len() == 0 {
        assert(ids_of(active_bars@) =~= ids_of(old(active_bars)@));
        assert(ids_of(newly_finished_bars@) =~= ids_of(old(newly_finished_bars)@));
        return (None, 0, Ghost(None), Ghost(Seq::empty()));
    }
    let dims = terminal_dimensions();
    let height = max_height(dims);
    let mut lines: Vec<String> = Vec::new();
    let mut i: usize = 0;
    while i < newly_finished_bars.len()
        invariant
            i <= newly_finished_bars.len(),
            newly_finished_bars.len() == old(newly_finished_bars).len(),
            lines.len() == i,
            forall|k: int|
                i <= k < newly_finished_bars.len() ==> #[trigger] newly_finished_bars@[k] == old(
                    newly_finished_bars,
                )@[k],
            forall|k: int|
                0 <= k < newly_finished_bars.len() ==> #[trigger] newly_finished_bars@[k].id == old(
                    newly_finished_bars,
                )@[k].id,
            forall|k: int|
                0 <= k < i ==> #[trigger] old(newly_finished_bars)@[k].bar.draws_line(
                    *params,
                    lines@[k]@,
                ),
        decreases newly_finished_bars.len() - i,
    {
        let line = newly_finished_bars[i].bar.draw(params);
        lines.push(line);
        i = i + 1;
    }
    assert(ids_of(newly_finished_bars@) =~= ids_of(old(newly_finished_bars)@));
    let ghost nf = newly_finished_bars.len() as int;
    let mut j: usize = 0;
    while j < active_bars.len()
        invariant
            j <= active_bars.len(),
            active_bars.len() == old(active_bars).len(),
            nf == old(newly_finished_bars).len(),
            lines.len() == nf + j,
            forall|k: int|
                j <= k < active_bars.len() ==> #[trigger] active_bars@[k] == old(active_bars)@[k],
            forall|k: int|
                0 <= k < active_bars.len() ==> #[trigger] active_bars@[k].id == old(
                    active_bars,
                )@[k].id,
            forall|k: int|
                0 <= k < nf ==> #[trigger] old(newly_finished_bars)@[k].bar.draws_line(
                    *params,
                    lines@[k]@,
                ),
            forall|k: int|
                0 <= k < j ==> #[trigger] old(active_bars)@[k].bar.draws_line(
                    *params,
                    lines@[nf + k]@,
                ),
        decreases active_bars.len() - j,
    {
        let line = active_bars[j].bar.draw(params);
        lines.push(line);
        j = j + 1;
    }
    assert(ids_of(active_bars@) =~= ids_of(old(active_bars)@));
    let frame = render_frame(prev_num_bars, height, &lines);
    (Some(frame), lines.len(), Ghost(dims), Ghost(views(lines@)))
}

impl MultiBarFuture {
    /// The shared state through which handles control this runner.
    pub closed spec fn spec_state(&self) -> MultiBarState {
        *self.state
    }

    /// Whether the runner waits for the redraw delay before doing anything.
    pub closed spec fn spec_waiting_delay(&self) -> bool {
        self.waiting_delay
    }

    /// The number of lines of the last frame that the next frame moves back over.
    pub closed spec fn spec_prev_num_bars(&self) -> nat {
        self.prev_num_bars as nat
    }

    /// The bars being drawn.
    pub closed spec fn spec_active(&self) -> Seq<Box<dyn BarDraw>> {
        bars_of(self.active_bars@)
    }

    /// The identities of the bars being drawn, given as they arrived.
    pub closed spec fn spec_active_ids(&self) -> Seq<nat> {
        ids_of(self.active_bars@)
    }

    /// The bars that finished and are to be drawn one last time.
    pub closed spec fn spec_finished(&self) -> Seq<Box<dyn BarDraw>> {
        bars_of(self.finished_bars@)
    }

    /// The identities of the finished bars.
    pub closed spec fn spec_finished_ids(&self) -> Seq<nat> {
        ids_of(self.finished_bars@)
    }

    /// The identity the next arriving bar gets.
    pub closed spec fn spec_next_id(&self) -> nat {
        self.next_id@
    }

    /// The waiting parties this runner has told of a redraw, in the order it told them.
    pub closed spec fn spec_told(&self) -> Seq<WhenDone> {
        self.told@
    }

    /// No two bars share an identity, and every identity was given out already.
    pub open spec fn wf(&self) -> bool {
        let ids = self.spec_finished_ids() + self.spec_active_ids();
        &&& ids.no_duplicates()
        &&& forall|i: int| 0 <= i < ids.len() ==> #[trigger] ids[i] < self.spec_next_id()
    }

    /// Every handle is gone: no more bars can arrive.
    pub closed spec fn spec_bar_receiver_finished(&self) -> bool {
        self.bar_receiver_finished
    }

    /// Every handle is gone: no more parties can ask to be told of a redraw.
    pub closed spec fn spec_done_receiver_finished(&self) -> bool {
        self.done_receiver_finished
    }

    /// Drawing is stopped.
    pub closed spec fn spec_stopped(&self) -> bool {
        self.stopped
    }

    /// The runner as `multi_bar` makes it: no bar, nothing drawn, nothing stopped or closed.
    pub open spec fn is_fresh(&self) -> bool {
        &&& !self.spec_waiting_delay()
        &&& self.spec_prev_num_bars() == 0
        &&& self.spec_active().len() == 0
        &&& self.spec_finished().len() == 0
        &&& !self.spec_bar_receiver_finished()
        &&& !self.spec_done_receiver_finished()
        &&& !self.spec_stopped()
    }

    /// The part of the runner that a poll's outside work does not touch is the same in both.
    pub open spec fn same_bars(&self, other: &MultiBarFuture) -> bool {
        &&& self.spec_waiting_delay() == other.spec_waiting_delay()
        &&& self.spec_prev_num_bars() == other.spec_prev_num_bars()
        &&& self.spec_active() == other.spec_active()
        &&& self.spec_finished() == other.spec_finished()
        &&& self.spec_active_ids() == other.spec_active_ids()
        &&& self.spec_finished_ids() == other.spec_finished_ids()
        &&& self.spec_next_id() == other.spec_next_id()
        &&& self.spec_bar_receiver_finished() == other.spec_bar_receiver_finished()
        &&& self.spec_done_receiver_finished() == other.spec_done_receiver_finished()
        &&& self.spec_stopped() == other.spec_stopped()
    }

    /// Takes every waiting party off the channel, noting when the channel has closed. Returns the
    /// parties and, as ghosts, whether a read reported the channel closed and the parties the
    /// reads gave, as they came; every one of them is returned, and the channel is given up
    /// exactly when a read reports it closed, never because it is empty for the moment.
    fn collect_waiters(&mut self) -> (r: (Vec<WhenDone>, Ghost<bool>, Ghost<Seq<WhenDone>>))
        ensures
            r.0@ == r.2@,
            final(self).done_receiver_finished == (old(self).done_receiver_finished || r.1@),
            r.1@ ==> !old(self).done_receiver_finished,
            old(self).done_receiver_finished ==> r.0.len() == 0,
            final(self).waiting_delay == old(self).waiting_delay,
            final(self).prev_num_bars == old(self).prev_num_bars,
            final(self).active_bars == old(self).active_bars,
            final(self).finished_bars == old(self).finished_bars,
            final(self).next_id == old(self).next_id,
            final(self).bar_receiver_finished == old(self).bar_receiver_finished,
            final(self).stopped == old(self).stopped,
            final(self).told == old(self).told,
    {
        let mut waiters: Vec<WhenDone> = Vec::new();
        let ghost mut closed = false;
        let ghost mut got: Seq<WhenDone> = Seq::empty();
        if !self.done_receiver_finished {
            let mut n: usize = 0;
            while n < usize::MAX
                invariant
                    old(self).spec_done_receiver_finished() == false,
                    waiters@ == got,
                    self.done_receiver_finished == closed,
                    self.waiting_delay == old(self).waiting_delay,
                    self.prev_num_bars == old(self).prev_num_bars,
                    self.active_bars == old(self).active_bars,
                    self.finished_bars == old(self).finished_bars,
                    self.next_id == old(self).next_id,
                    self.bar_receiver_finished == old(self).bar_receiver_finished,
                    self.stopped == old(self).stopped,
                    self.told == old(self).told,
                decreases usize::MAX - n,
            {
                match try_next_unbounded(&mut self.when_done_receiver) {
                    Received::Message(wd) => {
                        proof {
                            got = got.push(wd);
                        }
                        waiters.push(wd);
                    },
                    Received::Closed => {
                        self.done_receiver_finished = true;
                        proof {
                            closed = true;
                        }
                        break;
                    },
                    Received::Empty => break,
                }
                n = n + 1;
            }
        }
        (waiters, Ghost(closed), Ghost(got))
    }

    /// Takes every bar waiting in the channel onto the end of the stack, each with the next
    /// fresh identity, noting when the channel has closed. Returns, as ghosts, the slots taken,
    /// whether a read reported the channel closed, and how many bars the reads gave; every bar
    /// read goes onto the stack, and the channel is given up exactly when a read reports it
    /// closed, never because it is empty for the moment.
    fn collect_new_bars(&mut self) -> (r: (Ghost<Seq<Slot>>, Ghost<bool>, Ghost<nat>))
        ensures
            r.0@.len() == r.2@,
            final(self).active_bars@ == old(self).active_bars@ + r.0@,
            forall|k: int| 0 <= k < r.0@.len() ==> #[trigger] r.0@[k].id@ == old(self).next_id@ + k,
            final(self).next_id@ == old(self).next_id@ + r.0@.len(),
            final(self).bar_receiver_finished == (old(self).bar_receiver_finished || r.1@),
            final(self).waiting_delay == old(self).waiting_delay,
            final(self).prev_num_bars == old(self).prev_num_bars,
            final(self).finished_bars == old(self).finished_bars,
            final(self).done_receiver_finished == old(self).done_receiver_finished,
            final(self).stopped == old(self).stopped,
            final(self).told == old(self).told,
    {
        let ghost start = self.active_bars@;
        let ghost mut closed = false;
        let ghost mut received: nat = 0;
        let mut n: usize = 0;
        while n < usize::MAX
            invariant
                start == old(self).active_bars@,
                self.bar_receiver_finished == (old(self).bar_receiver_finished || closed),
                self.active_bars@.len() == start.len() + received,
                forall|i: int| 0 <= i < start.len() ==> #[trigger] self.active_bars@[i] == start[i],
                forall|i: int|
                    start.len() <= i < self.active_bars@.len() ==> #[trigger] self.active_bars@[i].id@
                        == old(self).next_id@ + (i - start.len()),
                self.next_id@ == old(self).next_id@ + (self.active_bars@.len() - start.len()),
                self.waiting_delay == old(self).waiting_delay,
                self.prev_num_bars == old(self).prev_num_bars,
                self.finished_bars == old(self).finished_bars,
                self.done_receiver_finished == old(self).done_receiver_finished,
                self.stopped == old(self).stopped,
                self.told == old(self).told,
            decreases usize::MAX - n,
        {
            match try_next(&mut self.bar_receiver) {
                Received::Message(pb) => {
                    proof {
                        received = received + 1;
                    }
                    let slot = Slot { bar: pb, id: Ghost(self.next_id@) };
                    let ghost before = self.active_bars@;
                    proof {
                        lemma_push_index(before, slot);
                    }
                    self.active_bars.push(slot);
                    self.next_id = Ghost(self.next_id@ + 1);
                },
                Received::Closed => {
                    self.bar_receiver_finished = true;
                    proof {
                        closed = true;
                    }
                    break;
                },
                Received::Empty => break,
            }
            n = n + 1;
        }
        let ghost taken = self.active_bars@.skip(start.len() as int);
        proof {
            lemma_prefix_split(self.active_bars@, start);
            lemma_skip_index(self.active_bars@, start.len() as int);
        }
        (Ghost(taken), Ghost(closed), Ghost(received))
    }
}

impl MultiBarFuture {
    /// What the first half of a poll that got past the redraw delay did, from the runner
    /// `before` to the runner `after`, as `p` reports it: which flags it read and took, what it
    /// read from the two channels, which bars it retired and drew, and the frame.
    pub open spec fn polled(before: MultiBarFuture, after: MultiBarFuture, p: PollRender) -> bool {
        let all = before.spec_active() + p.added@;
        let all_ids = before.spec_active_ids() + p.added_ids@;
        let params = BarDrawParams::spec_new(p.aborted, p.done);
        &&& before.spec_waiting_delay() ==> p.timer_fired@
        &&& after.spec_stopped() == p.stop_seen@
        &&& p.stop_seen@ ==> !p.change_taken@
        &&& p.rendered <==> !p.stop_seen@ && (p.change_taken@ || p.done)
        &&& p.aborted <==> p.rendered && p.abort_taken@
        &&& p.added@.len() > 0 ==> p.rendered && !before.spec_bar_receiver_finished()
            && !p.done_again@
        &&& p.added_ids@.len() == p.added@.len()
        &&& forall|k: int|
            0 <= k < p.added_ids@.len() ==> #[trigger] p.added_ids@[k]
                == before.spec_next_id() + k
        &&& after.spec_waiting_delay() == p.rendered
        &&& after.spec_prev_num_bars() == if after.spec_stopped() {
            0
        } else if p.rendered {
            after.spec_active().len()
        } else {
            before.spec_prev_num_bars()
        }
        &&& !p.rendered ==> {
            &&& after.spec_active() == before.spec_active()
            &&& after.spec_finished() == before.spec_finished()
            &&& after.spec_active_ids() == before.spec_active_ids()
            &&& after.spec_finished_ids() == before.spec_finished_ids()
            &&& p.frame is None
            &&& p.added@.len() == 0
        }
        &&& p.rendered ==> {
            &&& p.aborted ==> {
                &&& p.retired@ == before.spec_finished() + all
                &&& p.retired_ids@ == before.spec_finished_ids() + all_ids
                &&& p.survivors@.len() == 0
                &&& after.spec_active_ids().len() == 0
            }
            &&& !p.aborted ==> {
                &&& p.flags@.len() == all.len()
                &&& p.survivors@ == kept(all, p.flags@, false)
                &&& p.retired@ == before.spec_finished() + kept(all, p.flags@, true)
                &&& after.spec_active_ids() == kept(all_ids, p.flags@, false)
                &&& p.retired_ids@ == before.spec_finished_ids() + kept(
                    all_ids,
                    p.flags@,
                    true,
                )
            }
            &&& forall|id: nat|
                #![trigger p.retired_ids@.contains(id)]
                p.retired_ids@.contains(id) ==> !after.spec_active_ids().contains(id)
            &&& after.spec_finished().len() == 0
            &&& after.spec_active().len() == p.survivors@.len()
            &&& p.drawn == p.retired@.len() + p.survivors@.len()
            &&& p.drawn == before.spec_finished().len() + all.len()
            &&& p.lines@.len() == p.drawn
            &&& forall|k: int|
                0 <= k < p.retired@.len() ==> #[trigger] p.retired@[k].draws_line(
                    params,
                    p.lines@[k],
                )
            &&& forall|k: int|
                0 <= k < p.survivors@.len() ==> #[trigger] p.survivors@[k].draws_line(
                    params,
                    p.lines@[p.retired@.len() + k],
                )
            &&& p.frame is None <==> p.drawn == 0
            &&& p.frame matches Some(s) ==> s@ == frame_text(
                before.spec_prev_num_bars(),
                height_of(p.dims@),
                p.lines@,
            )
        }
        &&& p.bars_read@ <==> p.rendered && !before.spec_bar_receiver_finished() && !p.done_again@
        &&& p.bars_closed@ ==> p.bars_read@
        &&& p.added@.len() == p.bars_received@
        &&& after.spec_bar_receiver_finished() == (before.spec_bar_receiver_finished()
            || p.bars_closed@)
        &&& p.waiters_closed@ ==> !before.spec_done_receiver_finished()
        &&& after.spec_done_receiver_finished() == (before.spec_done_receiver_finished()
            || p.waiters_closed@)
        &&& before.spec_done_receiver_finished() ==> p.waiters.len() == 0
        &&& p.waiters@ == p.waiters_read@
        &&& p.change_taken@ ==> p.change_cleared@
        &&& p.aborted ==> p.abort_cleared@
        &&& after.spec_told() == before.spec_told()
    }

    /// What the second half of a poll did with `render`, from the runner `before` to the runner
    /// `after`: it told every waiting party handed to it, in order, left the bars as they were,
    /// and reported the runner ready exactly when the multibar was done.
    pub open spec fn completed(
        before: MultiBarFuture,
        after: MultiBarFuture,
        render: PollRender,
        ready: bool,
    ) -> bool {
        &&& ready == render.done
        &&& after.same_bars(&before)
        &&& after.spec_told() == before.spec_told() + render.waiters@
    }

    /// The first half of one poll of the runner. `None` while the redraw delay has not passed
    /// (nothing else is done). Otherwise it registers the task, reads the shared flags and takes
    /// the waiting parties. When drawing is not stopped and a bar changed or the multibar is
    /// done, it takes the new bars (unless done), retires the finished ones (or all, when the
    /// bars were aborted) and draws them, retired bars first, then the rest.
    #[verifier::spinoff_prover]
    #[verifier::rlimit(40)]
    pub fn poll_begin(&mut self, cx: &mut Context) -> (r: Option<PollRender>)
        requires
            old(self).wf(),
        ensures
            final(self).wf(),
            r is None ==> old(self).spec_waiting_delay() && final(self).same_bars(old(self)),
            r matches Some(p) ==> MultiBarFuture::polled(*old(self), *final(self), p),
    {
        let mut timer_fired = false;
        if self.waiting_delay {
            timer_fired = delay_poll(&mut self.delay, cx);
            if !timer_fired {
                return None;
            }
        }
        self.waiting_delay = false;
        atomic_waker_register(&self.state.waker, context_waker(cx));
        let done = self.state.done.load(Ordering::Acquire);
        self.stopped = self.state.stop.load(Ordering::Acquire);
        let (waiters, waiters_closed, waiters_read) = self.collect_waiters();
        let ghost mid_active = self.active_bars@;
        let ghost mid_finished = self.finished_bars@;
        let ghost mid_next = self.next_id@;
        let mut frame: Option<String> = None;
        let mut rendered = false;
        let mut aborted = false;
        let mut drawn: usize = 0;
        let mut change_taken = false;
        let mut done_again = false;
        let ghost mut change_cleared = false;
        let ghost mut abort_cleared = false;
        let ghost mut abort_found = false;
        let ghost mut bars_read = false;
        let ghost mut bars_closed = false;
        let ghost mut bars_received: nat = 0;
        let ghost mut added: Seq<Slot> = Seq::empty();
        let ghost mut flags_seen: Seq<bool> = Seq::empty();
        let ghost mut retired: Seq<Slot> = Seq::empty();
        let ghost mut survivors: Seq<Slot> = Seq::empty();
        let ghost mut dims: Option<(usize, usize)> = None;
        let ghost mut lines: Seq<Seq<char>> = Seq::empty();
        if !self.stopped {
            let (taken, left) = take_flag(&self.state.changed);
            change_taken = taken;
            proof {
                change_cleared = !left@;
            }
        }
        if !self.stopped && (change_taken || done) {
            if !self.bar_receiver_finished {
                done_again = self.state.done.load(Ordering::Acquire);
                if !done_again {
                    let (new_bars, closed, received) = self.collect_new_bars();
                    proof {
                        added = new_bars@;
                        bars_received = received@;
                        bars_read = true;
                        bars_closed = closed@;
                    }
                }
            }
            proof {
                lemma_concat_empty(mid_active);
                lemma_map_concat(mid_active, added, |x: Slot| x.bar);
                lemma_map_concat(mid_active, added, |x: Slot| x.id@);
                lemma_map_concat(mid_finished, mid_active + added, |x: Slot| x.id@);
                lemma_map_concat(mid_finished, mid_active, |x: Slot| x.id@);
                lemma_fresh_ids(ids_of(mid_finished), ids_of(mid_active), ids_of(added), mid_next);
            }
            assert(self.active_bars@ == mid_active + added);
            assert(self.next_id@ == mid_next + added.len());
            let (taken, left) = take_flag(&self.state.abort_active);
            aborted = taken;
            proof {
                abort_found = taken;
                abort_cleared = !left@;
            }
            let params = BarDrawParams { finished: done, aborted };
            if aborted {
                proof {
                    lemma_concat_assoc(mid_finished, mid_active, added);
                }
                self.finished_bars.append(&mut self.active_bars);
            } else {
                let flags = finished_flags(&self.active_bars);
                proof {
                    flags_seen = flags@;
                    law_split_keeps_every_bar(self.active_bars@, flags@);
                    lemma_kept_map(self.active_bars@, flags@, false, |x: Slot| x.bar);
                    lemma_kept_map(self.active_bars@, flags@, true, |x: Slot| x.bar);
                    lemma_kept_map(self.active_bars@, flags@, false, |x: Slot| x.id@);
                    lemma_kept_map(self.active_bars@, flags@, true, |x: Slot| x.id@);
                    lemma_map_concat(mid_finished, kept(self.active_bars@, flags@, true), |x: Slot| x.bar);
                    lemma_map_concat(mid_finished, kept(self.active_bars@, flags@, true), |x: Slot| x.id@);
                    lemma_split_ids(
                        ids_of(mid_finished),
                        ids_of(self.active_bars@),
                        flags@,
                        mid_next + added.len(),
                    );
                }
                retire_flagged(&mut self.active_bars, &mut self.finished_bars, &flags);
            }
            proof {
                retired = self.finished_bars@;
                survivors = self.active_bars@;
                lemma_map_concat(mid_finished, mid_active + added, |x: Slot| x.bar);
            }
            let out = draw_bars(
                &mut self.active_bars,
                &mut self.finished_bars,
                self.prev_num_bars,
                &params,
            );
            frame = out.0;
            drawn = out.1;
            proof {
                dims = out.2@;
                lines = out.3@;
            }
            self.finished_bars.clear();
            self.prev_num_bars = self.active_bars.len();
            self.waiting_delay = true;
            rendered = true;
            proof {
                assert(ids_of(self.finished_bars@) =~= Seq::<nat>::empty());
                assert(ids_of(self.finished_bars@) + ids_of(self.active_bars@) =~= ids_of(
                    self.active_bars@,
                ));
                assert(bars_of(self.finished_bars@) =~= Seq::<Box<dyn BarDraw>>::empty());
            }
        }
        if self.stopped {
            self.prev_num_bars = 0;
        }
        Some(
            PollRender {
                frame,
                waiters,
                done,
                rendered,
                aborted,
                drawn,
                timer_fired: Ghost(timer_fired),
                stop_seen: Ghost(self.stopped),
                change_taken: Ghost(change_taken),
                done_again: Ghost(done_again),
                change_cleared: Ghost(change_cleared),
                abort_cleared: Ghost(abort_cleared),
                bars_read: Ghost(bars_read),
                bars_closed: Ghost(bars_closed),
                bars_received: Ghost(bars_received),
                waiters_closed: waiters_closed,
                waiters_read: waiters_read,
                abort_taken: Ghost(abort_found),
                added: Ghost(bars_of(added)),
                added_ids: Ghost(ids_of(added)),
                flags: Ghost(flags_seen),
                retired: Ghost(bars_of(retired)),
                retired_ids: Ghost(ids_of(retired)),
                survivors: Ghost(bars_of(survivors)),
                dims: Ghost(dims),
                lines: Ghost(lines),
            },
        )
    }

    /// The second half of a poll, once the frame has been written: tells the waiting parties
    /// that a redraw happened, then reports whether the runner is done; if not, and a frame
    /// was drawn, restarts the redraw delay.
    pub fn poll_end(&mut self, render: PollRender) -> (ready: bool)
        ensures
            MultiBarFuture::completed(*old(self), *final(self), render, ready),
    {
        let waiters = render.waiters;
        let ghost mut told = self.told@;
        let mut i: usize = 0;
        while i < waiters.len()
            invariant
                i <= waiters.len(),
                told == old(self).told@ + waiters@.take(i as int),
            decreases waiters.len() - i,
        {
            let party = waiters[i].done();
            proof {
                assert(waiters@.take(i + 1) == waiters@.take(i as int).push(waiters@[i as int]));
                told = told.push(party@);
            }
            i = i + 1;
        }
        proof {
            assert(waiters@.take(waiters.len() as int) == waiters@);
        }
        self.told = Ghost(told);
        if render.done {
            return true;
        }
        if self.waiting_delay {
            delay_reset(&mut self.delay, millis(REDRAW_DELAY_MS));
        }
        false
    }
}

/// Over any run of polls, the runner gives the bar channel up only when a read of it reports
/// it closed, never because it is empty for the moment: while no read has reported it closed,
/// the channel stays open, and every poll that redraws, with the multibar not finishing, reads
/// it. `starts` are the runners before each poll, `ends` the runners after each poll's first
/// half; between one poll and the next nothing changes the bars (`same_bars`).
pub proof fn law_bar_channel_read_until_closed(
    starts: Seq<MultiBarFuture>,
    ends: Seq<MultiBarFuture>,
    polls: Seq<PollRender>,
)
    requires
        starts.len() == polls.len() + 1,
        ends.len() == polls.len(),
        !starts[0].spec_bar_receiver_finished(),
        forall|k: int|
            0 <= k < polls.len() ==> MultiBarFuture::polled(starts[k], ends[k], #[trigger] polls[k]),
        forall|k: int| 0 <= k < polls.len() ==> (#[trigger] ends[k]).same_bars(&starts[k + 1]),
        forall|k: int| 0 <= k < polls.len() ==> !(#[trigger] polls[k]).bars_closed@,
    ensures
        forall|k: int| 0 <= k < starts.len() ==> !(#[trigger] starts[k]).spec_bar_receiver_finished(),
        forall|k: int|
            0 <= k < polls.len() ==> ((#[trigger] polls[k]).rendered && !polls[k].done_again@
                ==> polls[k].bars_read@),
    decreases polls.len(),
{
    if polls.len() > 0 {
        let n = polls.len() - 1;
        let s0 = starts.drop_last();
        let e0 = ends.drop_last();
        let p0 = polls.drop_last();
        assert forall|k: int| 0 <= k < p0.len() implies MultiBarFuture::polled(
            s0[k],
            e0[k],
            #[trigger] p0[k],
        ) by {
            assert(s0[k] == starts[k] && e0[k] == ends[k] && p0[k] == polls[k]);
        }
        assert forall|k: int| 0 <= k < p0.len() implies (#[trigger] e0[k]).same_bars(&s0[k + 1]) by {
            assert(s0[k + 1] == starts[k + 1] && e0[k] == ends[k]);
            assert(ends[k].same_bars(&starts[k + 1]));
        }
        assert forall|k: int| 0 <= k < p0.len() implies !(#[trigger] p0[k]).bars_closed@ by {
            assert(p0[k] == polls[k]);
        }
        law_bar_channel_read_until_closed(s0, e0, p0);
        assert(s0[n] == starts[n]);
        assert(!starts[n].spec_bar_receiver_finished());
        assert(MultiBarFuture::polled(starts[n], ends[n], polls[n]));
        assert(ends[n].same_bars(&starts[n + 1]));
        assert forall|k: int| 0 <= k < starts.len() implies !(
        #[trigger] starts[k]).spec_bar_receiver_finished() by {
            if k < s0.len() {
                assert(s0[k] == starts[k]);
            }
        }
        assert forall|k: int|
            0 <= k < polls.len() && (#[trigger] polls[k]).rendered && !polls[k].done_again@ implies polls[k].bars_read@ by {
            assert(!starts[k].spec_bar_receiver_finished());
            assert(MultiBarFuture::polled(starts[k], ends[k], polls[k]));
        }
    }
}

/// Over any run of polls, the runner gives the waiter channel up only when a read of it reports
/// it closed, never because it is empty for the moment: while no read has reported it closed,
/// the channel stays open, so every poll takes the parties waiting in it. `starts`, `ends` and
/// `polls` are as for `law_bar_channel_read_until_closed`.
pub proof fn law_waiter_channel_read_until_closed(
    starts: Seq<MultiBarFuture>,
    ends: Seq<MultiBarFuture>,
    polls: Seq<PollRender>,
)
    requires
        starts.len() == polls.len() + 1,
        ends.len() == polls.len(),
        !starts[0].spec_done_receiver_finished(),
        forall|k: int|
            0 <= k < polls.len() ==> MultiBarFuture::polled(starts[k], ends[k], #[trigger] polls[k]),
        forall|k: int| 0 <= k < polls.len() ==> (#[trigger] ends[k]).same_bars(&starts[k + 1]),
        forall|k: int| 0 <= k < polls.len() ==> !(#[trigger] polls[k]).waiters_closed@,
    ensures
        forall|k: int|
            0 <= k < starts.len() ==> !(#[trigger] starts[k]).spec_done_receiver_finished(),
    decreases polls.len(),
{
    if polls.len() > 0 {
        let n = polls.len() - 1;
        let s0 = starts.drop_last();
        let e0 = ends.drop_last();
        let p0 = polls.drop_last();
        assert forall|k: int| 0 <= k < p0.len() implies MultiBarFuture::polled(
            s0[k],
            e0[k],
            #[trigger] p0[k],
        ) by {
            assert(s0[k] == starts[k] && e0[k] == ends[k] && p0[k] == polls[k]);
        }
        assert forall|k: int| 0 <= k < p0.len() implies (#[trigger] e0[k]).same_bars(&s0[k + 1]) by {
            assert(s0[k + 1] == starts[k + 1] && e0[k] == ends[k]);
            assert(ends[k].same_bars(&starts[k + 1]));
        }
        assert forall|k: int| 0 <= k < p0.len() implies !(#[trigger] p0[k]).waiters_closed@ by {
            assert(p0[k] == polls[k]);
        }
        law_waiter_channel_read_until_closed(s0, e0, p0);
        assert(s0[n] == starts[n]);
        assert(!starts[n].spec_done_receiver_finished());
        assert(MultiBarFuture::polled(starts[n], ends[n], polls[n]));
        assert(ends[n].same_bars(&starts[n + 1]));
        assert forall|k: int| 0 <= k < starts.len() implies !(
        #[trigger] starts[k]).spec_done_receiver_finished() by {
            if k < s0.len() {
                assert(s0[k] == starts[k]);
            }
        }
    }
}

/// A bar that a redrawing poll takes from the channel is on the stack after that poll, under
/// the identity the poll gave it, unless it reported itself finished or the bars were aborted.
/// `k` is the bar's place among the bars the poll took.
pub proof fn law_taken_bar_stays(before: MultiBarFuture, after: MultiBarFuture, p: PollRender, k: int)
    requires
        MultiBarFuture::polled(before, after, p),
        0 <= k < p.added@.len(),
        !p.aborted,
        !p.flags@[before.spec_active().len() + k],
    ensures
        after.spec_active_ids().contains(p.added_ids@[k]),
{
    let all_ids = before.spec_active_ids() + p.added_ids@;
    let i = before.spec_active_ids().len() + k;
    assert(before.spec_active_ids().len() == before.spec_active().len());
    assert(all_ids[i] == p.added_ids@[k]);
    lemma_kept_contains(all_ids, p.flags@, false, i);
}

/// Every party waiting for a redraw that a poll reads from the waiter channel is told of the
/// redraw when the poll completes, in the order the reads gave them; and the runner reports
/// itself ready exactly when the multibar was done.
pub proof fn law_waiters_told(
    before: MultiBarFuture,
    mid: MultiBarFuture,
    after: MultiBarFuture,
    p: PollRender,
    ready: bool,
)
    requires
        MultiBarFuture::polled(before, mid, p),
        MultiBarFuture::completed(mid, after, p, ready),
    ensures
        after.spec_told() == before.spec_told() + p.waiters_read@,
        ready == p.done,
{
}

/// An abort is taken once: a poll that aborts the bars draws every bar one last time (the ones
/// that had finished, the ones on the stack, and the ones it took), leaves none on the stack,
/// and leaves the abort flag clear, so that a later poll aborts only if the flag is set again.
pub proof fn law_abort_taken_once(before: MultiBarFuture, after: MultiBarFuture, p: PollRender)
    requires
        MultiBarFuture::polled(before, after, p),
        p.aborted,
    ensures
        p.abort_cleared@,
        p.retired@ == before.spec_finished() + (before.spec_active() + p.added@),
        p.survivors@.len() == 0,
        after.spec_active().len() == 0,
{
}

} // verus!
