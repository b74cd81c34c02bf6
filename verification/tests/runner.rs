use std::task::Context;
use std::time::{Duration, Instant};

use progression::draw::{BoringBarBuilder, BrailleBuilder, BLUE, GREEN, RED};
use progression::{multi_bar, BarBuild, BarDraw, BarDrawParams, BarState, MultiBarFuture, PollRender};

fn poll_until_some(runner: &mut MultiBarFuture) -> PollRender {
    let waker = futures::task::noop_waker();
    let mut cx = Context::from_waker(&waker);
    let start = Instant::now();
    loop {
        if let Some(r) = runner.poll_begin(&mut cx) {
            return r;
        }
        assert!(start.elapsed() < Duration::from_secs(10), "redraw delay never passed");
        std::hint::spin_loop();
    }
}

#[test]
fn nothing_changed_draws_nothing() {
    let (_handle, mut runner) = multi_bar();
    let r = poll_until_some(&mut runner);
    assert!(!r.rendered);
    assert!(r.frame.is_none());
    assert!(!r.done);
    assert!(!runner.poll_end(r));
}

#[test]
fn added_bar_is_drawn_after_progress() {
    let (mut handle, mut runner) = multi_bar();
    let bar = handle.add_bar(BoringBarBuilder::new("copy".to_string(), 100)).ok().unwrap();
    bar.set(50);
    let r = poll_until_some(&mut runner);
    assert!(r.rendered);
    assert_eq!(r.drawn, 1);
    let frame = r.frame.clone().unwrap();
    assert!(frame.starts_with("           copy "));
    assert!(frame.contains(" 50/100\x1b[0K\n"));
    assert!(!frame.starts_with("\x1b["));
    assert!(!runner.poll_end(r));

    bar.incr(25);
    let r = poll_until_some(&mut runner);
    let frame = r.frame.clone().unwrap();
    assert!(frame.starts_with("\x1b[1A"));
    assert!(frame.contains(" 75/100\x1b[0K\n"));
    runner.poll_end(r);
}

#[test]
fn finished_bar_is_drawn_once_more_then_dropped() {
    let (mut handle, mut runner) = multi_bar();
    let a = handle.add_bar(BoringBarBuilder::new("a".to_string(), 4)).ok().unwrap();
    let b = handle.add_bar(BoringBarBuilder::new("b".to_string(), 4)).ok().unwrap();
    a.tick();
    let r = poll_until_some(&mut runner);
    assert_eq!(r.drawn, 2);
    runner.poll_end(r);

    a.set(4);
    a.finish();
    let r = poll_until_some(&mut runner);
    assert_eq!(r.drawn, 2);
    let frame = r.frame.clone().unwrap();
    let pos_a = frame.find("              a ").unwrap();
    let pos_b = frame.find("              b ").unwrap();
    assert!(pos_a < pos_b);
    assert!(frame.contains(GREEN));
    runner.poll_end(r);

    b.tick();
    let r = poll_until_some(&mut runner);
    assert_eq!(r.drawn, 1);
    let frame = r.frame.clone().unwrap();
    assert!(frame.starts_with("\x1b[1A"));
    assert!(!frame.contains("              a "));
    runner.poll_end(r);
}

#[test]
fn abort_retires_every_bar_in_red() {
    let (mut handle, mut runner) = multi_bar();
    let a = handle.add_bar(BrailleBuilder::new("a".to_string(), 10)).ok().unwrap();
    let _b = handle.add_bar(BrailleBuilder::new("b".to_string(), 0)).ok().unwrap();
    a.tick();
    handle.abort_active();
    let r = poll_until_some(&mut runner);
    assert!(r.aborted);
    assert_eq!(r.drawn, 2);
    assert_eq!(r.frame.as_ref().unwrap().matches(RED).count(), 2);
    runner.poll_end(r);

    a.tick();
    let r = poll_until_some(&mut runner);
    assert!(r.rendered);
    assert_eq!(r.drawn, 0);
    assert!(r.frame.is_none());
    runner.poll_end(r);
}

#[test]
fn stopped_runner_draws_nothing_until_resumed() {
    let (mut handle, mut runner) = multi_bar();
    let a = handle.add_bar(BoringBarBuilder::new("a".to_string(), 0)).ok().unwrap();
    handle.stop();
    a.tick();
    let r = poll_until_some(&mut runner);
    assert!(!r.rendered);
    assert!(r.frame.is_none());
    runner.poll_end(r);

    handle.resume();
    let r = poll_until_some(&mut runner);
    assert!(r.rendered);
    assert_eq!(r.drawn, 1);
    assert!(r.frame.as_ref().unwrap().contains(BLUE));
    runner.poll_end(r);
}

#[test]
fn finish_completes_the_runner() {
    let (mut handle, mut runner) = multi_bar();
    let a = handle.add_bar(BoringBarBuilder::new("a".to_string(), 2)).ok().unwrap();
    assert!(!handle.is_finished());
    a.tick();
    let r = poll_until_some(&mut runner);
    assert!(!r.done);
    runner.poll_end(r);
    a.set(2);
    handle.finish();
    assert!(handle.is_finished());
    let r = poll_until_some(&mut runner);
    assert!(r.done);
    assert!(r.frame.as_ref().unwrap().contains(GREEN));
    assert!(runner.poll_end(r));
}

#[test]
fn waiters_are_told_after_a_redraw() {
    let (mut handle, mut runner) = multi_bar();
    let waker = futures::task::noop_waker();
    let cx = Context::from_waker(&waker);
    let w = handle.wait().unwrap();
    assert!(!w.poll_ready(&cx));
    let r = poll_until_some(&mut runner);
    assert_eq!(r.waiters.len(), 1);
    runner.poll_end(r);
    assert!(w.poll_ready(&cx));
}

#[test]
fn wait_after_runner_dropped_is_none() {
    let (mut handle, runner) = multi_bar();
    drop(runner);
    assert!(handle.wait().is_none());
}

#[test]
fn add_bar_after_runner_dropped_fails() {
    let (mut handle, runner) = multi_bar();
    drop(runner);
    assert!(handle.add_bar(BoringBarBuilder::new("x".to_string(), 1)).is_err());
}

#[test]
fn bar_state_finish_and_redraw_request_a_redraw() {
    struct Plain;
    impl BarDraw for Plain {
        fn is_finished(&self) -> bool {
            false
        }
        fn draw(&mut self, params: &BarDrawParams) -> String {
            format!("plain {} {}\n", params.aborted(), params.finished())
        }
    }
    struct PlainBuilder;
    impl BarBuild for PlainBuilder {
        type Handle = BarState;
        type Drawer = Plain;
        fn build(self, multibar: BarState) -> (BarState, Plain) {
            (multibar, Plain)
        }
    }
    let (mut handle, mut runner) = multi_bar();
    let state = handle.add_bar(PlainBuilder).ok().unwrap();
    state.redraw();
    let r = poll_until_some(&mut runner);
    assert_eq!(r.frame.clone().unwrap(), "plain false false\n");
    runner.poll_end(r);
    state.finish();
    let r = poll_until_some(&mut runner);
    assert!(r.rendered);
    runner.poll_end(r);
}

#[test]
fn draw_params_getters() {
    let p = BarDrawParams::new(true, false);
    assert!(p.aborted());
    assert!(!p.finished());
}

#[test]
fn braille_with_text_uses_the_text() {
    let (mut handle, mut runner) = multi_bar();
    let mut builder = BrailleBuilder::new("files".to_string(), 10);
    builder.with_text(Box::new(|c: usize, t: usize| format!("{} of {}", c, t)));
    let bar = handle.add_bar(builder).ok().unwrap();
    bar.tick();
    bar.tick();
    let r = poll_until_some(&mut runner);
    assert!(r.frame.as_ref().unwrap().contains(" files 2 of 10\x1b[0K\n"));
    runner.poll_end(r);
}

#[test]
fn braille_spinner_moves_every_second_change() {
    let (mut handle, mut runner) = multi_bar();
    let bar = handle.add_bar(BrailleBuilder::new("s".to_string(), 0)).ok().unwrap();
    let mut glyphs = Vec::new();
    for _ in 0..4 {
        bar.tick();
        let r = poll_until_some(&mut runner);
        let frame = r.frame.clone().unwrap();
        glyphs.push(frame.chars().find(|c| ('\u{2800}'..='\u{28ff}').contains(c)).unwrap());
        runner.poll_end(r);
    }
    assert_eq!(glyphs, vec!['\u{2801}', '\u{2801}', '\u{2801}', '\u{2809}']);
    bar.abort();
    let r = poll_until_some(&mut runner);
    assert_eq!(r.drawn, 1);
    assert!(r.frame.as_ref().unwrap().contains(RED));
    runner.poll_end(r);
    bar.tick();
    let r = poll_until_some(&mut runner);
    assert!(r.rendered);
    assert!(r.frame.is_none());
    runner.poll_end(r);
}

#[test]
fn finish_alone_renders_once_more() {
    let (mut handle, mut runner) = multi_bar();
    let a = handle.add_bar(BoringBarBuilder::new("a".to_string(), 3)).ok().unwrap();
    a.tick();
    let r = poll_until_some(&mut runner);
    assert!(r.rendered);
    runner.poll_end(r);
    handle.finish();
    let r = poll_until_some(&mut runner);
    assert!(r.rendered);
    assert!(r.done);
    assert_eq!(r.drawn, 1);
    assert!(r.frame.as_ref().unwrap().contains(" 1/3\x1b[0K\n"));
    assert!(runner.poll_end(r));
}

#[test]
fn bar_state_finish_retires_the_bar() {
    struct Plain;
    impl BarDraw for Plain {
        fn is_finished(&self) -> bool {
            false
        }
        fn draw(&mut self, _params: &BarDrawParams) -> String {
            "plain\n".to_string()
        }
    }
    struct PlainBuilder;
    impl BarBuild for PlainBuilder {
        type Handle = BarState;
        type Drawer = Plain;
        fn build(self, multibar: BarState) -> (BarState, Plain) {
            (multibar, Plain)
        }
    }
    let (mut handle, mut runner) = multi_bar();
    let state = handle.add_bar(PlainBuilder).ok().unwrap();
    state.redraw();
    let r = poll_until_some(&mut runner);
    assert_eq!(r.drawn, 1);
    runner.poll_end(r);
    state.finish();
    let r = poll_until_some(&mut runner);
    assert_eq!(r.drawn, 1);
    assert_eq!(r.frame.clone().unwrap(), "\x1b[1Aplain\n");
    runner.poll_end(r);
    state.redraw();
    let r = poll_until_some(&mut runner);
    assert!(r.rendered);
    assert_eq!(r.drawn, 0);
    runner.poll_end(r);
}

#[test]
fn boring_looping_bar_finishes_green() {
    let (mut handle, mut runner) = multi_bar();
    let bar = handle.add_bar(BoringBarBuilder::new("scan".to_string(), 0)).ok().unwrap();
    bar.tick();
    bar.finish();
    let r = poll_until_some(&mut runner);
    let frame = r.frame.clone().unwrap();
    assert!(frame.contains(&format!("{}{}", GREEN, "=".repeat(60))));
    assert!(frame.ends_with(" 1\x1b[0K\n"));
    runner.poll_end(r);
}
