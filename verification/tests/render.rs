use progression::draw::{BLUE, CLEAR, GREEN, RED};
use progression::frame::{max_height, render_frame, retire_flagged};
use progression::render::boring_bar_line;
use progression::render::braille_line;

/// The boring bar's line as the floating-point formula and `format!` compute it.
fn reference_boring(name: &str, draws: usize, total: usize, current: usize, finished: bool, aborted: bool) -> (String, usize) {
    let len = 60;
    if total != 0 {
        let used = std::cmp::min(len, (len as f64 * (current as f64 / total as f64)).round() as usize);
        let remaining = len - used;
        let colour = if aborted { RED } else if finished { if remaining == 0 { GREEN } else { RED } } else { BLUE };
        (
            format!(
                "{: >15} {}{:=>used$}{}{:->remaining$} {}/{}\x1b[0K\n",
                name, colour, "", CLEAR, "", current, total, used = used, remaining = remaining
            ),
            draws,
        )
    } else {
        let next = if aborted { draws } else { draws + 1 };
        let start = draws % len;
        let line = if finished && !aborted {
            format!("{}{:=>len$}{}", GREEN, "", CLEAR, len = len)
        } else {
            let mut b = String::new();
            for i in 0..len {
                if (i >= start && i < start + 10) || (i + len < start + 10) {
                    b.push_str(&format!("{}={}", if aborted { RED } else { BLUE }, CLEAR));
                } else {
                    b.push('-');
                }
            }
            b
        };
        (format!("{: >15} {} {}\x1b[0K\n", name, line, current), next)
    }
}

#[test]
fn boring_half_way_exact_line() {
    let (line, draws) = boring_bar_line("copy", 7, 100, 50, false, false);
    let expected = format!(
        "           copy {}{}{}{} 50/100\x1b[0K\n",
        BLUE,
        "=".repeat(30),
        CLEAR,
        "-".repeat(30)
    );
    assert_eq!(line, expected);
    assert_eq!(draws, 7);
}

#[test]
fn boring_finished_full_is_green() {
    let (line, _) = boring_bar_line("x", 0, 10, 10, true, false);
    assert!(line.contains(GREEN));
    assert!(line.ends_with(" 10/10\x1b[0K\n"));
}

#[test]
fn boring_finished_short_is_red() {
    let (line, _) = boring_bar_line("x", 0, 10, 3, true, false);
    assert!(line.contains(RED));
    assert!(!line.contains(GREEN));
}

#[test]
fn boring_beyond_total_is_full() {
    let (line, _) = boring_bar_line("x", 0, 10, 25, false, false);
    assert_eq!(line.matches('=').count(), 60);
    assert!(line.ends_with(" 25/10\x1b[0K\n"));
}

#[test]
fn boring_long_name_not_cut() {
    let (line, _) = boring_bar_line("a-very-long-bar-name", 0, 4, 1, false, false);
    assert!(line.starts_with("a-very-long-bar-name "));
}

#[test]
fn boring_matches_floating_point_formula() {
    for total in [1usize, 3, 7, 60, 61, 97, 100, 1000, 12345] {
        for current in 0..(total + 5).min(400) {
            for (finished, aborted) in [(false, false), (true, false), (false, true), (true, true)] {
                assert_eq!(
                    boring_bar_line("bar", 3, total, current, finished, aborted),
                    reference_boring("bar", 3, total, current, finished, aborted),
                    "total {} current {}", total, current
                );
            }
        }
    }
}

#[test]
fn looping_bar_matches_formula_and_advances() {
    for draws in 0..130usize {
        for (finished, aborted) in [(false, false), (true, false), (false, true), (true, true)] {
            assert_eq!(
                boring_bar_line("spin", draws, 0, 42, finished, aborted),
                reference_boring("spin", draws, 0, 42, finished, aborted)
            );
        }
    }
}

#[test]
fn looping_bar_lights_ten_cells() {
    for draws in 0..60usize {
        let (line, next) = boring_bar_line("s", draws, 0, 0, false, false);
        assert_eq!(line.matches(BLUE).count(), 10);
        assert_eq!(next, draws + 1);
    }
}

#[test]
fn looping_bar_window_wraps() {
    let (line, _) = boring_bar_line("s", 55, 0, 0, false, false);
    let cells: String = line.replace(&format!("{}={}", BLUE, CLEAR), "#");
    assert!(cells.contains(" #####------"));
    assert!(cells.contains("-----##### 0"));
}

#[test]
fn looping_bar_aborted_keeps_position() {
    let (line, next) = boring_bar_line("s", 9, 0, 0, false, true);
    assert_eq!(next, 9);
    assert_eq!(line.matches(RED).count(), 10);
}

#[test]
fn looping_bar_counter_wraps_at_max() {
    let (_, next) = boring_bar_line("s", usize::MAX, 0, 0, false, false);
    assert_eq!(next, 0);
}

fn reference_percent(current: usize, total: usize) -> String {
    format!("({:.0}%)", ((100 * current) as f64) / (total as f64))
}

#[test]
fn braille_percent_matches_format() {
    for total in [1usize, 2, 3, 7, 8, 9, 40, 100, 333, 1000] {
        for current in 0..=total {
            let line = braille_line("n", 0, current, total, false, false, None);
            let expected_tail = format!(" n {}\x1b[0K\n", reference_percent(current, total));
            assert!(line.ends_with(&expected_tail), "{} {} {:?}", current, total, line);
        }
    }
}

#[test]
fn braille_progress_exact_line() {
    let line = braille_line("load", 0, 4, 8, false, false, None);
    assert_eq!(line, format!("{}\u{28e4}{} load (50%)\x1b[0K\n", BLUE, CLEAR));
}

#[test]
fn braille_progress_glyphs() {
    let glyphs = " \u{2840}\u{28c0}\u{28c4}\u{28e4}\u{28e6}\u{28f6}\u{28f7}\u{28ff}";
    for current in 0..=8usize {
        let line = braille_line("n", 0, current, 8, true, false, None);
        let g = glyphs.chars().nth(current).unwrap();
        assert_eq!(line, format!("{}{}{} n {}\x1b[0K\n", GREEN, g, CLEAR, reference_percent(current, 8)));
    }
}

#[test]
fn braille_progress_beyond_total_shows_full() {
    let line = braille_line("n", 0, 20, 8, false, false, None);
    assert!(line.contains('\u{28ff}'));
    assert!(line.contains("(250%)"));
}

#[test]
fn braille_custom_text() {
    let line = braille_line("n", 0, 3, 10, false, true, Some("3 of 10".to_string()));
    assert_eq!(line, format!("{}\u{28c0}{} n 3 of 10\x1b[0K\n", RED, CLEAR));
}

#[test]
fn braille_spinner_line() {
    let line = braille_line("wait", 2, 5, 0, false, false, None);
    assert_eq!(line, format!("{}\u{2809}{} wait\x1b[0K\n", BLUE, CLEAR));
    let done = braille_line("wait", 2, 5, 0, true, false, None);
    assert_eq!(done, format!("{}\u{28ff}{} wait\x1b[0K\n", GREEN, CLEAR));
}

#[test]
fn frame_moves_up_over_previous_bars() {
    let lines = vec!["a\n".to_string(), "b\n".to_string()];
    assert_eq!(render_frame(0, 10, &lines), "a\nb\n");
    assert_eq!(render_frame(3, 10, &lines), "\x1b[3Aa\nb\n");
    assert_eq!(render_frame(30, 23, &lines), "\x1b[23Aa\nb\n");
    assert_eq!(render_frame(5, 0, &Vec::new()), "\x1b[0A");
}

#[test]
fn max_height_from_terminal() {
    assert_eq!(max_height(Some((80, 24))), 23);
    assert_eq!(max_height(Some((80, 1))), 0);
    assert_eq!(max_height(None), 1);
}

#[test]
fn retire_keeps_order() {
    let mut active = vec![1, 2, 3, 4, 5];
    let mut finished = vec![0];
    retire_flagged(&mut active, &mut finished, &vec![false, true, true, false, true]);
    assert_eq!(active, vec![1, 4]);
    assert_eq!(finished, vec![0, 2, 3, 5]);
}

#[test]
fn retire_nothing_flagged() {
    let mut active = vec![7, 8];
    let mut finished: Vec<i32> = vec![];
    retire_flagged(&mut active, &mut finished, &vec![false, false]);
    assert_eq!(active, vec![7, 8]);
    assert!(finished.is_empty());
}
